//! How the encoder is told to spend its bits.

use vstd::prelude::*;
use vstd::arithmetic::power2::pow2;
use crate::control::VideoStreamParams;

verus! {

/// Vulkan's flags for rate control modes.
pub const RATE_CONTROL_DEFAULT: u32 = 0;

pub const RATE_CONTROL_DISABLED: u32 = 1;

pub const RATE_CONTROL_VBR: u32 = 4;

/// The length of the virtual buffer, in milliseconds.
pub const VBV_SIZE: u32 = 2500;

/// The lowest QP that is ever asked for.
pub const LOWEST_QP: u32 = 17;

#[derive(Debug, Clone, Copy, PartialEq, Eq, Structural)]
pub enum RateControlMode {
    ConstantQp(CascadingQp),
    Vbr(LayeredVbr),
    Defaults,
}

/// A constant QP, which rises from layer to layer up to a maximum.
#[derive(Debug, Clone, Copy, PartialEq, Eq, Structural)]
pub struct CascadingQp {
    pub target: u32,
    pub max: u32,
}

#[derive(Debug, Clone, Copy, PartialEq, Eq, Structural)]
pub struct VbrSettings {
    pub average_bitrate: u64,
    pub peak_bitrate: u64,
    pub max_qp: u32,
    pub min_qp: u32,
}

/// A variable bitrate, which halves from layer to layer.
#[derive(Debug, Clone, Copy, PartialEq, Eq, Structural)]
pub struct LayeredVbr {
    pub vbv_size_ms: u32,
    pub base: VbrSettings,
    pub num_layers: u32,
}

/// The QP of a layer, for a given QP of the base layer: three more for any
/// layer above it, and two more for each step.
pub open spec fn layer_qp_of(target_qp: int, layer: int) -> int {
    if layer == 0 {
        target_qp
    } else {
        target_qp + 3 + 2 * layer
    }
}

pub open spec fn clamped(value: int, low: int, high: int) -> int {
    if value < low {
        low
    } else if value > high {
        high
    } else {
        value
    }
}

/// Determines the constant QP for a layer given the target QP. For a target of
/// 22 the layers have 22, 27, 29, 31 and so on.
pub fn layer_qp(target_qp: u32, layer: u32) -> (qp: u32)
    requires
        layer_qp_of(target_qp as int, layer as int) <= u32::MAX,
    ensures
        qp == layer_qp_of(target_qp as int, layer as int),
{
    if layer == 0 {
        target_qp
    } else {
        target_qp + 3 + layer * 2
    }
}

fn clamp(value: u32, low: u32, high: u32) -> (result: u32)
    requires
        low <= high,
    ensures
        result == clamped(value as int, low as int, high as int),
{
    if value < low {
        low
    } else if value > high {
        high
    } else {
        value
    }
}

impl CascadingQp {
    pub fn layer(&self, layer: u32) -> (qp: u32)
        requires
            layer_qp_of(self.target as int, layer as int) <= u32::MAX,
        ensures
            qp == if layer_qp_of(self.target as int, layer as int) < self.max {
                layer_qp_of(self.target as int, layer as int)
            } else {
                self.max as int
            },
    {
        let qp: u32 = layer_qp(self.target, layer);
        if qp < self.max {
            qp
        } else {
            self.max
        }
    }
}

impl LayeredVbr {
    /// The layers for which settings exist.
    pub open spec fn has_layer(self, layer: u32) -> bool {
        self.num_layers > 1 ==> {
            &&& layer < 63
            &&& self.base.min_qp <= self.base.max_qp
            &&& layer_qp_of(self.base.max_qp as int, layer as int) <= u32::MAX
        }
    }

    /// The settings of a layer: with more than one layer, each gets half the
    /// bitrate of the one below, and the base layer half of the total.
    pub open spec fn layer_settings(self, layer: u32) -> VbrSettings {
        if self.num_layers <= 1 {
            self.base
        } else {
            VbrSettings {
                average_bitrate: (self.base.average_bitrate as nat / pow2(
                    (layer + 1) as nat,
                )) as u64,
                peak_bitrate: (self.base.peak_bitrate as nat / pow2((layer + 1) as nat)) as u64,
                max_qp: clamped(
                    layer_qp_of(self.base.max_qp as int, layer as int),
                    self.base.min_qp as int,
                    self.base.max_qp as int,
                ) as u32,
                min_qp: self.base.min_qp,
            }
        }
    }

    pub fn layer(&self, layer: u32) -> (settings: VbrSettings)
        requires
            self.has_layer(layer),
        ensures
            settings == self.layer_settings(layer),
    {
        if self.num_layers <= 1 {
            return self.base;
        }
        let denominator: u64 = 1u64 << (layer + 1);
        proof {
            vstd::arithmetic::power2::lemma_pow2_pos((layer + 1) as nat);
            vstd::arithmetic::power2::lemma2_to64();
            vstd::arithmetic::power2::lemma2_to64_rest();
            if layer + 1 < 63 {
                vstd::arithmetic::power2::lemma_pow2_strictly_increases((layer + 1) as nat, 63);
            }
            vstd::bits::lemma_u64_shl_is_mul(1, (layer + 1) as u64);
        }
        let max_qp: u32 = clamp(
            layer_qp(self.base.max_qp, layer),
            self.base.min_qp,
            self.base.max_qp,
        );
        VbrSettings {
            average_bitrate: self.base.average_bitrate / denominator,
            peak_bitrate: self.base.peak_bitrate / denominator,
            max_qp,
            min_qp: self.base.min_qp,
        }
    }
}

impl RateControlMode {
    /// The Vulkan flag for this mode.
    pub fn as_vk_flags(&self) -> (flags: u32)
        ensures
            flags == match *self {
                RateControlMode::ConstantQp(_) => RATE_CONTROL_DISABLED,
                RateControlMode::Vbr(_) => RATE_CONTROL_VBR,
                RateControlMode::Defaults => RATE_CONTROL_DEFAULT,
            },
    {
        match self {
            RateControlMode::ConstantQp(_) => RATE_CONTROL_DISABLED,
            RateControlMode::Vbr(_) => RATE_CONTROL_VBR,
            RateControlMode::Defaults => RATE_CONTROL_DEFAULT,
        }
    }
}

/// The average and the peak bitrate of a quality preset at 1920 by 1080
/// pixels, in bits per second. The last three are used only where a constant
/// QP is not supported.
pub open spec fn baseline_bitrates(preset: u32) -> (u64, u64) {
    if preset == 0 {
        (2_500_000, 5_000_000)
    } else if preset == 1 {
        (3_000_000, 8_000_000)
    } else if preset == 2 {
        (4_000_000, 10_000_000)
    } else if preset == 3 {
        (5_000_000, 15_000_000)
    } else if preset == 4 {
        (6_000_000, 20_000_000)
    } else if preset == 5 {
        (8_000_000, 30_000_000)
    } else if preset == 6 {
        (10_000_000, 40_000_000)
    } else if preset == 7 {
        (12_000_000, 60_000_000)
    } else if preset == 8 {
        (25_000_000, 80_000_000)
    } else {
        (50_000_000, 100_000_000)
    }
}

/// Looks up the bitrates of a quality preset; they are scaled to the
/// resolution of a stream outside.
pub fn baseline_for(preset: u32) -> (bitrates: (u64, u64))
    requires
        preset <= 9,
    ensures
        bitrates == baseline_bitrates(preset),
{
    match preset {
        0 => (2_500_000, 5_000_000),
        1 => (3_000_000, 8_000_000),
        2 => (4_000_000, 10_000_000),
        3 => (5_000_000, 15_000_000),
        4 => (6_000_000, 20_000_000),
        5 => (8_000_000, 30_000_000),
        6 => (10_000_000, 40_000_000),
        7 => (12_000_000, 60_000_000),
        8 => (25_000_000, 80_000_000),
        _ => (50_000_000, 100_000_000),
    }
}

/// A better preset never gets less, and the peak is above the average.
pub proof fn better_presets_get_more(preset: u32, better: u32)
    requires
        preset <= better <= 9,
    ensures
        baseline_bitrates(preset).0 <= baseline_bitrates(better).0,
        baseline_bitrates(preset).1 <= baseline_bitrates(better).1,
        baseline_bitrates(preset).0 < baseline_bitrates(preset).1,
{
}

/// The lowest QP to ask for, where the driver has its own limit.
pub open spec fn lowest_qp(min_qp: u32) -> u32 {
    if min_qp < LOWEST_QP {
        LOWEST_QP
    } else {
        min_qp
    }
}

/// The QP that a quality preset aims at: from 40 at the worst to 22 at the
/// best, within the limits of the driver.
pub open spec fn target_qp(preset: u32, min_qp: u32, max_qp: u32) -> u32 {
    clamped(40 - 2 * preset, lowest_qp(min_qp) as int, max_qp as int) as u32
}

pub open spec fn supports(modes: u32, mode: u32) -> bool {
    modes & mode == mode
}

/// How the bitrate of a stream is controlled.
pub open spec fn selected_mode(
    params: VideoStreamParams,
    rate_control_modes: u32,
    min_qp: u32,
    max_qp: u32,
    layers: u32,
    average_bitrate: u64,
    peak_bitrate: u64,
) -> RateControlMode {
    let crf = supports(rate_control_modes, RATE_CONTROL_DISABLED);
    let vbr = supports(rate_control_modes, RATE_CONTROL_VBR);
    let target = target_qp(params.preset, min_qp, max_qp);
    if crf && (params.preset >= 7 || !vbr) {
        RateControlMode::ConstantQp(CascadingQp { target, max: max_qp })
    } else if vbr {
        RateControlMode::Vbr(
            LayeredVbr {
                vbv_size_ms: VBV_SIZE,
                base: VbrSettings {
                    average_bitrate,
                    peak_bitrate,
                    min_qp: lowest_qp(min_qp),
                    max_qp: target,
                },
                num_layers: layers,
            },
        )
    } else {
        RateControlMode::Defaults
    }
}

/// Selects how the bitrate of a stream is controlled. The three best presets
/// use a low constant QP, where the driver supports it; the others use a
/// variable bitrate, which is given for the resolution of the stream.
pub fn select_rc_mode(
    params: VideoStreamParams,
    rate_control_modes: u32,
    min_qp: u32,
    max_qp: u32,
    layers: u32,
    average_bitrate: u64,
    peak_bitrate: u64,
) -> (mode: RateControlMode)
    requires
        params.preset <= 9,
        supports(rate_control_modes, RATE_CONTROL_DISABLED) || supports(
            rate_control_modes,
            RATE_CONTROL_VBR,
        ) ==> lowest_qp(min_qp) <= max_qp,
    ensures
        mode == selected_mode(
            params,
            rate_control_modes,
            min_qp,
            max_qp,
            layers,
            average_bitrate,
            peak_bitrate,
        ),
{
    let lowest: u32 = if min_qp < LOWEST_QP {
        LOWEST_QP
    } else {
        min_qp
    };
    let aim: u32 = 40 - 2 * params.preset;
    let supports_crf = rate_control_modes & RATE_CONTROL_DISABLED == RATE_CONTROL_DISABLED;
    let supports_vbr = rate_control_modes & RATE_CONTROL_VBR == RATE_CONTROL_VBR;
    if params.preset >= 7 && supports_crf {
        RateControlMode::ConstantQp(
            CascadingQp { target: clamp(aim, lowest, max_qp), max: max_qp },
        )
    } else if supports_vbr {
        RateControlMode::Vbr(
            LayeredVbr {
                vbv_size_ms: VBV_SIZE,
                base: VbrSettings {
                    average_bitrate,
                    peak_bitrate,
                    min_qp: lowest,
                    max_qp: clamp(aim, lowest, max_qp),
                },
                num_layers: layers,
            },
        )
    } else if supports_crf {
        RateControlMode::ConstantQp(
            CascadingQp { target: clamp(aim, lowest, max_qp), max: max_qp },
        )
    } else {
        RateControlMode::Defaults
    }
}

/// The QP never falls from one layer to the next.
pub proof fn layer_qp_is_monotone(target: int, layer: int, higher: int)
    requires
        0 <= layer <= higher,
    ensures
        layer_qp_of(target, layer) <= layer_qp_of(target, higher),
{
}

/// No layer has a QP outside the limits of the stream.
pub proof fn vbr_layer_qp_is_bounded(vbr: LayeredVbr, layer: u32)
    requires
        vbr.base.min_qp <= vbr.base.max_qp,
        vbr.has_layer(layer),
    ensures
        vbr.layer_settings(layer).min_qp == vbr.base.min_qp,
        vbr.base.min_qp <= vbr.layer_settings(layer).max_qp <= vbr.base.max_qp,
{
}

/// The bitrate that the layers up to one of them use together, as a sum.
pub open spec fn summed_bitrate(vbr: LayeredVbr, layers: nat) -> nat
    decreases layers,
{
    if layers == 0 {
        0
    } else {
        summed_bitrate(vbr, (layers - 1) as nat) + vbr.base.average_bitrate as nat / pow2(layers)
    }
}

/// All layers together stay within the bitrate of the stream.
pub proof fn layered_bitrate_is_bounded(vbr: LayeredVbr, layers: nat)
    ensures
        (summed_bitrate(vbr, layers) + vbr.base.average_bitrate as nat / pow2(layers)) as int
            <= vbr.base.average_bitrate,
    decreases layers,
{
    vstd::arithmetic::power2::lemma2_to64();
    if layers == 0 {
        assert(vbr.base.average_bitrate as nat / pow2(0) == vbr.base.average_bitrate as nat);
    } else {
        let m = (layers - 1) as nat;
        layered_bitrate_is_bounded(vbr, m);
        vstd::arithmetic::power2::lemma_pow2_unfold(layers);
        vstd::arithmetic::power2::lemma_pow2_pos(m);
        vstd::arithmetic::power2::lemma_pow2_pos(layers);
        let b = vbr.base.average_bitrate as int;
        let d = pow2(m) as int;
        assert(2 * (b / (2 * d)) <= b / d) by (nonlinear_arith)
            requires
                d > 0,
                b >= 0,
        ;
    }
}

/// The bitrate varies where the driver can do that, but for the three best
/// presets, which get a constant QP if the driver can do that. The driver
/// chooses only if it can do neither.
pub proof fn mode_follows_driver_and_preset(
    params: VideoStreamParams,
    rate_control_modes: u32,
    min_qp: u32,
    max_qp: u32,
    layers: u32,
    average_bitrate: u64,
    peak_bitrate: u64,
)
    ensures
        ({
            let mode = selected_mode(
                params,
                rate_control_modes,
                min_qp,
                max_qp,
                layers,
                average_bitrate,
                peak_bitrate,
            );
            let constant = rate_control_modes & 1 == 1;
            let variable = rate_control_modes & 4 == 4;
            &&& mode is Vbr <==> variable && (params.preset < 7 || !constant)
            &&& mode is ConstantQp <==> constant && (params.preset >= 7 || !variable)
            &&& mode is Defaults <==> !constant && !variable
        }),
{
}

/// A variable bitrate is the one that was asked for, with all of the room
/// between its average and its peak. Its QP stays within the limits of the
/// driver, and is never below 17.
pub proof fn variable_bitrate_is_as_given(
    params: VideoStreamParams,
    rate_control_modes: u32,
    min_qp: u32,
    max_qp: u32,
    layers: u32,
    average_bitrate: u64,
    peak_bitrate: u64,
)
    requires
        params.preset <= 9,
        min_qp <= max_qp,
        17 <= max_qp,
    ensures
        selected_mode(
            params,
            rate_control_modes,
            min_qp,
            max_qp,
            layers,
            average_bitrate,
            peak_bitrate,
        ) matches RateControlMode::Vbr(vbr) ==> {
            &&& vbr.base.average_bitrate == average_bitrate
            &&& vbr.base.peak_bitrate == peak_bitrate
            &&& average_bitrate < peak_bitrate ==> vbr.base.average_bitrate < vbr.base.peak_bitrate
            &&& vbr.num_layers == layers
            &&& vbr.vbv_size_ms == 2500
            &&& vbr.base.min_qp >= 17 && vbr.base.min_qp >= min_qp
            &&& vbr.base.min_qp == 17 || vbr.base.min_qp == min_qp
            &&& vbr.base.min_qp <= vbr.base.max_qp <= max_qp
        },
{
}

/// A constant QP lies within the limits of the driver, is never below 17, and
/// has room up to the limit for the layers above.
pub proof fn constant_qp_is_within_limits(
    params: VideoStreamParams,
    rate_control_modes: u32,
    min_qp: u32,
    max_qp: u32,
    layers: u32,
    average_bitrate: u64,
    peak_bitrate: u64,
)
    requires
        params.preset <= 9,
        min_qp <= max_qp,
        17 <= max_qp,
    ensures
        selected_mode(
            params,
            rate_control_modes,
            min_qp,
            max_qp,
            layers,
            average_bitrate,
            peak_bitrate,
        ) matches RateControlMode::ConstantQp(qp) ==> {
            &&& qp.max == max_qp
            &&& 17 <= qp.target <= max_qp
            &&& min_qp <= qp.target
            &&& min_qp <= 22 && max_qp >= 40 ==> qp.target == 40 - 2 * params.preset
        },
{
}

/// A better preset never aims at a higher QP, and within wide limits each step
/// lowers it by two, from 40 to 22.
pub proof fn better_presets_aim_lower(preset: u32, better: u32, min_qp: u32, max_qp: u32)
    requires
        preset <= better <= 9,
        min_qp <= max_qp,
        17 <= max_qp,
    ensures
        target_qp(better, min_qp, max_qp) <= target_qp(preset, min_qp, max_qp),
        min_qp <= 22 && max_qp >= 40 ==> target_qp(preset, min_qp, max_qp) - target_qp(
            better,
            min_qp,
            max_qp,
        ) == 2 * (better - preset),
        min_qp <= 22 && max_qp >= 40 ==> target_qp(0, min_qp, max_qp) == 40,
{
}

/// The base layer has the QP that is aimed at, the first layer above it five
/// more, and each further layer two more than the one below.
pub proof fn layer_qp_rises_in_steps(target: int, layer: int)
    requires
        layer >= 1,
    ensures
        layer_qp_of(target, 0) == target,
        layer_qp_of(target, 1) == target + 5,
        layer_qp_of(target, layer + 1) - layer_qp_of(target, layer) == 2,
{
}

/// A single layer gets the whole bitrate. With more, the base layer gets half
/// of it, and each layer half of what the one below gets.
pub proof fn each_layer_gets_half(vbr: LayeredVbr, layer: u32)
    requires
        vbr.has_layer(layer),
        layer < 62,
    ensures
        vbr.num_layers <= 1 ==> vbr.layer_settings(layer) == vbr.base,
        vbr.num_layers > 1 ==> vbr.layer_settings(0).average_bitrate == vbr.base.average_bitrate / 2,
        vbr.num_layers > 1 ==> vbr.layer_settings(0).peak_bitrate == vbr.base.peak_bitrate / 2,
        vbr.num_layers > 1 ==> vbr.layer_settings((layer + 1) as u32).average_bitrate
            == vbr.layer_settings(layer).average_bitrate / 2,
        vbr.num_layers > 1 ==> vbr.layer_settings((layer + 1) as u32).peak_bitrate
            == vbr.layer_settings(layer).peak_bitrate / 2,
{
    vstd::arithmetic::power2::lemma2_to64();
    vstd::arithmetic::power2::lemma_pow2_unfold((layer + 2) as nat);
    vstd::arithmetic::power2::lemma_pow2_pos((layer + 1) as nat);
    let d = pow2((layer + 1) as nat) as int;
    lemma_halved(vbr.base.average_bitrate as int, d);
    lemma_halved(vbr.base.peak_bitrate as int, d);
}

proof fn lemma_halved(b: int, d: int)
    requires
        b >= 0,
        d > 0,
    ensures
        b / (2 * d) == (b / d) / 2,
        0 <= b / d <= b,
{
    vstd::arithmetic::div_mod::lemma_div_denominator(b, d, 2);
    assert(d * 2 == 2 * d);
    assert(0 <= b / d <= b) by (nonlinear_arith)
        requires
            b >= 0,
            d > 0,
    ;
}

/// The bitrates of the presets, in hundreds of kilobits per second.
pub proof fn baselines_are_listed(preset: int)
    requires
        0 <= preset <= 9,
    ensures
        baseline_bitrates(preset as u32).0 == 100_000 * seq![
            25int,
            30,
            40,
            50,
            60,
            80,
            100,
            120,
            250,
            500,
        ][preset],
        baseline_bitrates(preset as u32).1 == 100_000 * seq![
            50int,
            80,
            100,
            150,
            200,
            300,
            400,
            600,
            800,
            1000,
        ][preset],
        preset < 9 ==> baseline_bitrates(preset as u32).0 < baseline_bitrates((preset + 1) as u32).0,
        preset < 9 ==> baseline_bitrates(preset as u32).1 < baseline_bitrates((preset + 1) as u32).1,
{
}

/// The driver is told to hold the quality, to vary the bitrate, or to do as it
/// likes; no two of these are told alike.
pub proof fn modes_have_flags(mode: &RateControlMode, flags: u32)
    requires
        call_ensures(RateControlMode::as_vk_flags, (mode,), flags),
    ensures
        flags == 1 <==> *mode is ConstantQp,
        flags == 4 <==> *mode is Vbr,
        flags == 0 <==> *mode is Defaults,
{
}

} // verus!

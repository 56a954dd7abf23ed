//! The record of one GPU and its classification as discrete or integrated.
use vstd::prelude::*;
pub use crate::snapshot::{full_snapshot, RocmSnapshot};
pub use crate::version::{check_rocm_smi, RocmCheckResult, RocmVersion};
use crate::coerce::spec_opt_text;
use crate::float::FloatBits;
use crate::text::{
    chars_of, contains, spec_contains, spec_to_ascii_lowercase, to_ascii_lowercase,
};

verus! {

/// Whether a GPU has memory of its own or shares the system's.
#[derive(Debug, Clone, Copy, PartialEq, Eq, Hash, Structural)]
pub enum GpuKind {
    Discrete,
    Integrated,
    Unknown,
}

/// What `rocm-smi` reports of one GPU. Every field is optional: the tool
/// leaves out what the hardware or the driver does not tell.
#[derive(Debug, Clone, PartialEq, Eq)]
pub struct RocmDevice {
    /// The product name (`Device Name`).
    pub product: Option<String>,
    /// The card series (`Card Series`).
    pub card_series: Option<String>,
    /// The subsystem id (`Subsystem ID`).
    pub subsystem: Option<String>,
    /// The card vendor (`Card Vendor`).
    pub vendor: Option<String>,
    /// The version of the graphics core (`GFX Version`).
    pub gfx_version: Option<String>,
    /// The temperature at the edge sensor, in degrees Celsius.
    pub temp_edge: Option<FloatBits>,
    /// The temperature at the junction sensor, in degrees Celsius.
    pub temp_hotspot: Option<FloatBits>,
    /// The temperature at the memory sensor, in degrees Celsius.
    pub temp_mem: Option<FloatBits>,
    /// The shader clock, in MHz.
    pub sclk_mhz: Option<u32>,
    /// The memory clock, in MHz.
    pub mclk_mhz: Option<u32>,
    /// The size of the video memory, in MB.
    pub vram_total_mb: Option<u32>,
    /// The video memory in use, in MB.
    pub vram_used_mb: Option<u32>,
    /// The fan speed, in revolutions per minute.
    pub fan_rpm: Option<u32>,
    /// The largest power that the package may draw, in watts.
    pub power_cap: Option<FloatBits>,
    /// The average power that the package draws, in watts.
    pub power_avg: Option<FloatBits>,
    /// The use of the compute units, in percent.
    pub gpu_util: Option<u32>,
    /// The share of the video memory that is allocated, in percent.
    pub vram_util: Option<u32>,
    /// The vendor of the video memory (`GPU memory vendor`).
    pub vram_vendor: Option<String>,
    /// The classification; the tool does not report it.
    pub kind: Option<GpuKind>,
}

/// The mathematical content of a [`RocmDevice`].
pub struct RocmDeviceView {
    pub product: Option<Seq<char>>,
    pub card_series: Option<Seq<char>>,
    pub subsystem: Option<Seq<char>>,
    pub vendor: Option<Seq<char>>,
    pub gfx_version: Option<Seq<char>>,
    pub temp_edge: Option<FloatBits>,
    pub temp_hotspot: Option<FloatBits>,
    pub temp_mem: Option<FloatBits>,
    pub sclk_mhz: Option<u32>,
    pub mclk_mhz: Option<u32>,
    pub vram_total_mb: Option<u32>,
    pub vram_used_mb: Option<u32>,
    pub fan_rpm: Option<u32>,
    pub power_cap: Option<FloatBits>,
    pub power_avg: Option<FloatBits>,
    pub gpu_util: Option<u32>,
    pub vram_util: Option<u32>,
    pub vram_vendor: Option<Seq<char>>,
    pub kind: Option<GpuKind>,
}

impl View for RocmDevice {
    type V = RocmDeviceView;

    open spec fn view(&self) -> RocmDeviceView {
        RocmDeviceView {
            product: spec_opt_text(self.product),
            card_series: spec_opt_text(self.card_series),
            subsystem: spec_opt_text(self.subsystem),
            vendor: spec_opt_text(self.vendor),
            gfx_version: spec_opt_text(self.gfx_version),
            temp_edge: self.temp_edge,
            temp_hotspot: self.temp_hotspot,
            temp_mem: self.temp_mem,
            sclk_mhz: self.sclk_mhz,
            mclk_mhz: self.mclk_mhz,
            vram_total_mb: self.vram_total_mb,
            vram_used_mb: self.vram_used_mb,
            fan_rpm: self.fan_rpm,
            power_cap: self.power_cap,
            power_avg: self.power_avg,
            gpu_util: self.gpu_util,
            vram_util: self.vram_util,
            vram_vendor: spec_opt_text(self.vram_vendor),
            kind: self.kind,
        }
    }
}

/// The bit pattern of 50.0: a GPU that draws more watts on average counts as
/// discrete.
pub const DISCRETE_POWER_BITS: u64 = 0x4049_0000_0000_0000;

/// The code names that mark an integrated GPU, in small letters.
pub open spec fn spec_integrated_keywords() -> Seq<Seq<char>> {
    seq!["raphael"@, "phoenix"@, "rembrandt"@, "van gogh"@, "r7"@, "r9"@]
}

/// The content of a list of strings.
pub open spec fn spec_texts(list: Seq<String>) -> Seq<Seq<char>> {
    Seq::new(list.len(), |i: int| list[i]@)
}

/// Whether `text`, with its ASCII letters made small, holds one of
/// `keywords`. A missing text counts as the empty text.
pub open spec fn spec_mentions(text: Option<Seq<char>>, keywords: Seq<Seq<char>>) -> bool {
    let shown = match text {
        Some(t) => t,
        None => Seq::empty(),
    };
    exists|i: int|
        0 <= i < keywords.len() && spec_contains(
            spec_to_ascii_lowercase(shown),
            #[trigger] keywords[i],
        )
}

/// Whether the product name or the card series holds one of `keywords`.
pub open spec fn spec_named_integrated(dev: RocmDeviceView, keywords: Seq<Seq<char>>) -> bool {
    spec_mentions(dev.product, keywords) || spec_mentions(dev.card_series, keywords)
}

/// Whether a power reading is there and is greater than 50.0 watts.
pub open spec fn spec_draws_discrete_power(power: Option<FloatBits>) -> bool {
    match power {
        Some(p) => p.spec_gt(FloatBits { bits: DISCRETE_POWER_BITS }),
        None => false,
    }
}

/// The classification of a device under a list of code names: integrated
/// where the name or the series holds one of them; else discrete where a
/// memory vendor is reported or the average power is above 50.0 watts; else
/// unknown.
pub open spec fn spec_classify_with(dev: RocmDeviceView, keywords: Seq<Seq<char>>) -> GpuKind {
    if spec_named_integrated(dev, keywords) {
        GpuKind::Integrated
    } else if dev.vram_vendor is Some || spec_draws_discrete_power(dev.power_avg) {
        GpuKind::Discrete
    } else {
        GpuKind::Unknown
    }
}

/// The classification of a device under the built-in code names.
pub open spec fn spec_classify(dev: RocmDeviceView) -> GpuKind {
    spec_classify_with(dev, spec_integrated_keywords())
}

/// The built-in code names of integrated GPUs.
pub fn integrated_keywords() -> (list: Vec<String>)
    ensures
        spec_texts(list@) == spec_integrated_keywords(),
{
    let mut list: Vec<String> = Vec::new();
    list.push("raphael".to_owned());
    list.push("phoenix".to_owned());
    list.push("rembrandt".to_owned());
    list.push("van gogh".to_owned());
    list.push("r7".to_owned());
    list.push("r9".to_owned());
    assert(spec_texts(list@) =~= spec_integrated_keywords());
    list
}

/// Tests whether `text`, lower-cased, holds one of `keywords`.
pub fn mentions(text: &Option<String>, keywords: &Vec<String>) -> (r: bool)
    ensures
        r == spec_mentions(spec_opt_text(*text), spec_texts(keywords@)),
{
    let shown: Vec<char> = match text {
        Some(t) => chars_of(t.as_str()),
        None => Vec::new(),
    };
    let lowered = to_ascii_lowercase(&shown);
    let ghost names = spec_texts(keywords@);
    let mut i: usize = 0;
    while i < keywords.len()
        invariant
            i <= keywords.len(),
            names == spec_texts(keywords@),
            spec_mentions(spec_opt_text(*text), names) <==> exists|k: int|
                0 <= k < names.len() && spec_contains(lowered@, #[trigger] names[k]),
            forall|k: int| 0 <= k < i ==> !spec_contains(lowered@, #[trigger] spec_texts(keywords@)[k]),
        decreases keywords.len() - i,
    {
        let keyword = chars_of(keywords[i].as_str());
        if contains(&lowered, &keyword) {
            assert(spec_contains(lowered@, spec_texts(keywords@)[i as int]));
            return true;
        }
        i += 1;
    }
    false
}

/// Tests whether a power reading is above 50.0 watts.
pub fn draws_discrete_power(power: &Option<FloatBits>) -> (r: bool)
    ensures
        r == spec_draws_discrete_power(*power),
{
    match power {
        Some(p) => p.gt(&FloatBits { bits: DISCRETE_POWER_BITS }),
        None => false,
    }
}

/// Classifies a device under the code names in `keywords`, which are matched
/// as they are given against the lower-cased name and series.
pub fn classify_with(dev: &RocmDevice, keywords: &Vec<String>) -> (kind: GpuKind)
    ensures
        kind == spec_classify_with(dev@, spec_texts(keywords@)),
{
    if mentions(&dev.product, keywords) || mentions(&dev.card_series, keywords) {
        GpuKind::Integrated
    } else if dev.vram_vendor.is_some() || draws_discrete_power(&dev.power_avg) {
        GpuKind::Discrete
    } else {
        GpuKind::Unknown
    }
}

/// Classifies a device under the built-in code names.
pub fn classify_gpu(dev: &RocmDevice) -> (kind: GpuKind)
    ensures
        kind == spec_classify(dev@),
{
    let keywords = integrated_keywords();
    classify_with(dev, &keywords)
}

/// Two devices with the same content are classified alike.
pub proof fn lemma_classify_deterministic(a: RocmDevice, b: RocmDevice)
    requires
        a@ == b@,
    ensures
        spec_classify(a@) == spec_classify(b@),
{
}

/// A device whose name or series holds a code name of an integrated GPU, in
/// capital or small letters, is integrated, whatever its power and its memory
/// vendor.
pub proof fn lemma_keyword_gives_integrated(dev: RocmDeviceView)
    requires
        spec_named_integrated(dev, spec_integrated_keywords()),
    ensures
        spec_classify(dev) == GpuKind::Integrated,
{
}

/// A device without a code name of an integrated GPU that reports a memory
/// vendor is discrete, whatever power it draws.
pub proof fn lemma_memory_vendor_gives_discrete(dev: RocmDeviceView)
    requires
        !spec_named_integrated(dev, spec_integrated_keywords()),
        dev.vram_vendor is Some,
    ensures
        spec_classify(dev) == GpuKind::Discrete,
{
}

/// A device without a code name of an integrated GPU and without a memory
/// vendor is discrete where it draws more than 50.0 watts on average, and
/// unknown where it draws no more or reports no power.
pub proof fn lemma_power_decides_without_vendor(dev: RocmDeviceView)
    requires
        !spec_named_integrated(dev, spec_integrated_keywords()),
        dev.vram_vendor is None,
    ensures
        spec_draws_discrete_power(dev.power_avg) ==> spec_classify(dev) == GpuKind::Discrete,
        !spec_draws_discrete_power(dev.power_avg) ==> spec_classify(dev) == GpuKind::Unknown,
{
}

} // verus!

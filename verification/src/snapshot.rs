//! The snapshot of all GPUs: four reports of the tool are merged into one
//! document, and every section named `card...` is read as one device.
//!
//! Floating-point readings are not read here. A [`DeviceDraft`] holds the
//! text of each of them; the caller reads the texts and hands the numbers to
//! [`DeviceDraft::finish`], which completes and classifies the device.
use vstd::prelude::*;
use crate::coerce::{
    coerce_float_text, coerce_u32, fit_u32, spec_coerce_float_text, spec_coerce_u32,
    spec_fit_u32, spec_opt_text,
};
use crate::decimal::{parse_u64, spec_parse_u64};
use crate::float::FloatBits;
use crate::json::{
    entries_of, json_document, lookup, map_members, object_of, read_value, spec_entry_trees,
    spec_lookup, spec_members, tree_of, value_tree, Json, JsonView,
};
use crate::merge::{
    lemma_merge_alike, lemma_roots_alike_transitive, merge_into, spec_alike, spec_merge,
    spec_roots_alike, spec_same_answers,
};
use crate::rocm::{classify_gpu, spec_classify, RocmDevice, RocmDeviceView};
use crate::text::{chars_of, spec_starts_with, starts_with};

verus! {

/// Number of bytes in one megabyte.
pub const BYTES_PER_MB: u64 = 1_048_576;

/// The report that a document comes from.
#[derive(Debug, Clone, Copy, PartialEq, Eq, Hash, Structural)]
pub enum Report {
    /// `rocm-smi -a --json`
    Base,
    /// `rocm-smi --showgpuclocks --showclocks --json`
    Clocks,
    /// `rocm-smi --showmeminfo vram --json`
    Memory,
    /// `rocm-smi --showmaxpower --json`
    MaxPower,
}

/// Why no snapshot could be made.
#[derive(Debug, Clone, Copy, PartialEq, Eq, Hash, Structural)]
pub enum SnapshotError {
    /// The report is not JSON, or is no object at its root.
    MalformedDocument(Report),
    /// A section named `card...` is no object.
    MalformedDevice,
}

/// The root of a report: its sections by name, in the map in which
/// `serde_json` holds them.
#[derive(Debug, PartialEq, Eq)]
pub struct RocmSnapshot {
    pub cards: serde_json::Map<String, serde_json::Value>,
}

impl View for RocmSnapshot {
    type V = Seq<(Seq<char>, JsonView)>;

    open spec fn view(&self) -> Seq<(Seq<char>, JsonView)> {
        map_members(self.cards)
    }
}

/// The texts from which the floating-point readings of a device are read.
#[derive(Debug, Clone, PartialEq, Eq)]
pub struct FloatTexts {
    pub temp_edge: Option<String>,
    pub temp_hotspot: Option<String>,
    pub temp_mem: Option<String>,
    pub power_cap: Option<String>,
    pub power_avg: Option<String>,
}

/// The mathematical content of [`FloatTexts`].
pub struct FloatTextsView {
    pub temp_edge: Option<Seq<char>>,
    pub temp_hotspot: Option<Seq<char>>,
    pub temp_mem: Option<Seq<char>>,
    pub power_cap: Option<Seq<char>>,
    pub power_avg: Option<Seq<char>>,
}

impl View for FloatTexts {
    type V = FloatTextsView;

    open spec fn view(&self) -> FloatTextsView {
        FloatTextsView {
            temp_edge: spec_opt_text(self.temp_edge),
            temp_hotspot: spec_opt_text(self.temp_hotspot),
            temp_mem: spec_opt_text(self.temp_mem),
            power_cap: spec_opt_text(self.power_cap),
            power_avg: spec_opt_text(self.power_avg),
        }
    }
}

/// The floating-point readings of a device, as read from its [`FloatTexts`];
/// `None` where a text is no number.
#[derive(Debug, Clone, Copy, PartialEq, Eq)]
pub struct FloatReadings {
    pub temp_edge: Option<FloatBits>,
    pub temp_hotspot: Option<FloatBits>,
    pub temp_mem: Option<FloatBits>,
    pub power_cap: Option<FloatBits>,
    pub power_avg: Option<FloatBits>,
}

/// A device whose floating-point readings are still texts.
#[derive(Debug, Clone, PartialEq, Eq)]
pub struct DeviceDraft {
    /// The device without floating-point readings and without a kind.
    pub device: RocmDevice,
    /// The texts of the floating-point readings.
    pub texts: FloatTexts,
}

/// The mathematical content of a [`DeviceDraft`].
pub struct DraftView {
    pub device: RocmDeviceView,
    pub texts: FloatTextsView,
}

impl View for DeviceDraft {
    type V = DraftView;

    open spec fn view(&self) -> DraftView {
        DraftView { device: self.device@, texts: self.texts@ }
    }
}

/// The string under `key`, if the field is there and holds a string.
pub open spec fn spec_text_field(bag: Seq<(Seq<char>, JsonView)>, key: Seq<char>) -> Option<
    Seq<char>,
> {
    match spec_lookup(bag, key) {
        Some(JsonView::Text(s)) => Some(s),
        _ => None,
    }
}

/// The unsigned integer that the field under `key` stands for, if any.
pub open spec fn spec_u32_field(bag: Seq<(Seq<char>, JsonView)>, key: Seq<char>) -> Option<u32> {
    match spec_lookup(bag, key) {
        Some(value) => spec_coerce_u32(value),
        None => None,
    }
}

/// The text of the floating-point reading under `key`, if any.
pub open spec fn spec_float_text_field(
    bag: Seq<(Seq<char>, JsonView)>,
    key: Seq<char>,
) -> Option<Seq<char>> {
    match spec_lookup(bag, key) {
        Some(value) => spec_coerce_float_text(value),
        None => None,
    }
}

/// The number under `key`, if the field holds a JSON number that is a `u32`.
pub open spec fn spec_plain_u32_field(
    bag: Seq<(Seq<char>, JsonView)>,
    key: Seq<char>,
) -> Option<u32> {
    match spec_lookup(bag, key) {
        Some(JsonView::Number(n)) => match n.unsigned {
            Some(u) => spec_fit_u32(u),
            None => None,
        },
        _ => None,
    }
}

/// The whole megabytes in `bytes`: the quotient by 1,048,576, or `None`
/// where the quotient does not fit a `u32`.
pub open spec fn spec_bytes_to_mb(bytes: u64) -> Option<u32> {
    spec_fit_u32(bytes / BYTES_PER_MB)
}

/// A memory size in MB: derived from the byte count that the string under
/// `bytes_key` writes, and absent where that many megabytes do not fit the
/// field; where there is no such count, the number under `plain_key`.
pub open spec fn spec_megabytes_field(
    bag: Seq<(Seq<char>, JsonView)>,
    bytes_key: Seq<char>,
    plain_key: Seq<char>,
) -> Option<u32> {
    let count = match spec_text_field(bag, bytes_key) {
        Some(s) => spec_parse_u64(s),
        None => None,
    };
    match count {
        Some(bytes) => spec_bytes_to_mb(bytes),
        None => spec_plain_u32_field(bag, plain_key),
    }
}

/// The draft that the members of a device section stand for.
pub open spec fn spec_draft(bag: Seq<(Seq<char>, JsonView)>) -> DraftView {
    DraftView {
        device: RocmDeviceView {
            product: spec_text_field(bag, "Device Name"@),
            card_series: spec_text_field(bag, "Card Series"@),
            subsystem: spec_text_field(bag, "Subsystem ID"@),
            vendor: spec_text_field(bag, "Card Vendor"@),
            gfx_version: spec_text_field(bag, "GFX Version"@),
            temp_edge: None,
            temp_hotspot: None,
            temp_mem: None,
            sclk_mhz: spec_u32_field(bag, "sclk clock speed:"@),
            mclk_mhz: spec_u32_field(bag, "mclk clock speed:"@),
            vram_total_mb: spec_megabytes_field(
                bag,
                "VRAM Total Memory (B)"@,
                "vram_total_mb"@,
            ),
            vram_used_mb: spec_megabytes_field(
                bag,
                "VRAM Total Used Memory (B)"@,
                "vram_used_mb"@,
            ),
            fan_rpm: spec_u32_field(bag, "Fan RPM"@),
            power_cap: None,
            power_avg: None,
            gpu_util: spec_u32_field(bag, "GPU use (%)"@),
            vram_util: spec_u32_field(bag, "GPU Memory Allocated (VRAM%)"@),
            vram_vendor: spec_text_field(bag, "GPU memory vendor"@),
            kind: None,
        },
        texts: FloatTextsView {
            temp_edge: spec_float_text_field(bag, "Temperature (Sensor edge) (C)"@),
            temp_hotspot: spec_float_text_field(bag, "Temperature (Sensor junction) (C)"@),
            temp_mem: spec_float_text_field(bag, "Temperature (Sensor memory) (C)"@),
            power_cap: spec_text_field(bag, "Max Graphics Package Power (W)"@),
            power_avg: spec_float_text_field(bag, "Average Graphics Package Power (W)"@),
        },
    }
}

/// A reading counts only where the device has a text for it.
pub open spec fn spec_reading(text: Option<Seq<char>>, reading: Option<FloatBits>) -> Option<
    FloatBits,
> {
    if text is Some {
        reading
    } else {
        None
    }
}

/// The device of a draft with its readings filled in, not yet classified.
pub open spec fn spec_with_readings(draft: DraftView, readings: FloatReadings) -> RocmDeviceView {
    RocmDeviceView {
        temp_edge: spec_reading(draft.texts.temp_edge, readings.temp_edge),
        temp_hotspot: spec_reading(draft.texts.temp_hotspot, readings.temp_hotspot),
        temp_mem: spec_reading(draft.texts.temp_mem, readings.temp_mem),
        power_cap: spec_reading(draft.texts.power_cap, readings.power_cap),
        power_avg: spec_reading(draft.texts.power_avg, readings.power_avg),
        ..draft.device
    }
}

/// The finished device: the readings filled in, and the kind set to the
/// classification of the device so filled.
pub open spec fn spec_finish(draft: DraftView, readings: FloatReadings) -> RocmDeviceView {
    let filled = spec_with_readings(draft, readings);
    RocmDeviceView { kind: Some(spec_classify(filled)), ..filled }
}

/// Whether a section name marks a device.
pub open spec fn spec_is_device_key(key: Seq<char>) -> bool {
    spec_starts_with(key, "card"@)
}

/// The drafts of the device sections of a root, in the order of the sections.
/// Sections with other names are passed over.
pub open spec fn spec_drafts(root: Seq<(Seq<char>, JsonView)>) -> Seq<DraftView>
    decreases root.len(),
{
    if root.len() == 0 {
        Seq::empty()
    } else {
        let before = spec_drafts(root.drop_last());
        if spec_is_device_key(root.last().0) {
            before.push(spec_draft(root.last().1.members()))
        } else {
            before
        }
    }
}

/// Whether every device section of a root is an object.
pub open spec fn spec_devices_are_objects(root: Seq<(Seq<char>, JsonView)>) -> bool {
    forall|i: int|
        0 <= i < root.len() && spec_is_device_key((#[trigger] root[i]).0) ==> root[i].1 is Object
}

/// The drafts of a merged root, or the error where a device section is no
/// object.
pub open spec fn spec_root_drafts(root: Seq<(Seq<char>, JsonView)>) -> Result<
    Seq<DraftView>,
    SnapshotError,
> {
    if spec_devices_are_objects(root) {
        Ok(spec_drafts(root))
    } else {
        Err(SnapshotError::MalformedDevice)
    }
}

/// Whether a report, as far as it could be read, is an object at its root.
pub open spec fn spec_is_root(doc: Option<JsonView>) -> bool {
    doc matches Some(JsonView::Object(_))
}

/// The sections of a report.
pub open spec fn spec_sections(doc: Option<JsonView>) -> Seq<(Seq<char>, JsonView)> {
    match doc {
        Some(value) => value.members(),
        None => Seq::empty(),
    }
}

/// The snapshot of four reports, each given as what was read from it. The
/// first report, in the order base, clocks, memory, maximum power, that is no
/// object at its root decides the error. Otherwise the three supplements are
/// merged into the base, one after the other, and the devices are read from
/// the result.
pub open spec fn spec_snapshot(
    base: Option<JsonView>,
    clocks: Option<JsonView>,
    memory: Option<JsonView>,
    max_power: Option<JsonView>,
) -> Result<Seq<DraftView>, SnapshotError> {
    if !spec_is_root(base) {
        Err(SnapshotError::MalformedDocument(Report::Base))
    } else if !spec_is_root(clocks) {
        Err(SnapshotError::MalformedDocument(Report::Clocks))
    } else if !spec_is_root(memory) {
        Err(SnapshotError::MalformedDocument(Report::Memory))
    } else if !spec_is_root(max_power) {
        Err(SnapshotError::MalformedDocument(Report::MaxPower))
    } else {
        spec_root_drafts(
            spec_merge(
                spec_merge(
                    spec_merge(spec_sections(base), spec_sections(clocks)),
                    spec_sections(memory),
                ),
                spec_sections(max_power),
            ),
        )
    }
}

/// The content of a list of drafts.
pub open spec fn spec_draft_views(list: Seq<DeviceDraft>) -> Seq<DraftView> {
    Seq::new(list.len(), |i: int| list[i]@)
}

/// The content of the outcome of a snapshot.
pub open spec fn spec_outcome_view(outcome: Result<Vec<DeviceDraft>, SnapshotError>) -> Result<
    Seq<DraftView>,
    SnapshotError,
> {
    match outcome {
        Ok(list) => Ok(spec_draft_views(list@)),
        Err(e) => Err(e),
    }
}

/// Converts a byte count to whole megabytes; `None` where they do not fit.
pub fn bytes_to_mb(bytes: u64) -> (mb: Option<u32>)
    ensures
        mb == spec_bytes_to_mb(bytes),
        mb is Some <==> bytes / BYTES_PER_MB <= u32::MAX,
        mb matches Some(n) ==> n == bytes / BYTES_PER_MB,
{
    fit_u32(bytes / BYTES_PER_MB)
}

/// Reads the string under `key`.
pub fn text_field(bag: &Vec<(String, Json)>, key: &str) -> (r: Option<String>)
    ensures
        spec_opt_text(r) == spec_text_field(spec_members(bag@), key@),
{
    match lookup(bag, key) {
        Some(Json::Text(s)) => Some(s.clone()),
        _ => None,
    }
}

/// Reads the unsigned integer under `key`.
pub fn u32_field(bag: &Vec<(String, Json)>, key: &str) -> (r: Option<u32>)
    ensures
        r == spec_u32_field(spec_members(bag@), key@),
{
    match lookup(bag, key) {
        Some(value) => coerce_u32(value),
        None => None,
    }
}

/// Picks the text of the floating-point reading under `key`.
pub fn float_text_field(bag: &Vec<(String, Json)>, key: &str) -> (r: Option<String>)
    ensures
        spec_opt_text(r) == spec_float_text_field(spec_members(bag@), key@),
{
    match lookup(bag, key) {
        Some(value) => coerce_float_text(value),
        None => None,
    }
}

/// Reads the JSON number under `key` as a `u32`.
pub fn plain_u32_field(bag: &Vec<(String, Json)>, key: &str) -> (r: Option<u32>)
    ensures
        r == spec_plain_u32_field(spec_members(bag@), key@),
{
    match lookup(bag, key) {
        Some(Json::Number(n)) => match n.unsigned {
            Some(u) => fit_u32(u),
            None => None,
        },
        _ => None,
    }
}

/// Reads a memory size in MB from the byte count under `bytes_key`, or from
/// the number under `plain_key`.
pub fn megabytes_field(bag: &Vec<(String, Json)>, bytes_key: &str, plain_key: &str) -> (r: Option<
    u32,
>)
    ensures
        r == spec_megabytes_field(spec_members(bag@), bytes_key@, plain_key@),
{
    let count: Option<u64> = match lookup(bag, bytes_key) {
        Some(Json::Text(s)) => {
            let chars = chars_of(s.as_str());
            parse_u64(&chars)
        },
        _ => None,
    };
    match count {
        Some(bytes) => bytes_to_mb(bytes),
        None => plain_u32_field(bag, plain_key),
    }
}

/// Reads the members of a device section as a draft.
pub fn decode_device(bag: &Vec<(String, Json)>) -> (draft: DeviceDraft)
    ensures
        draft@ == spec_draft(spec_members(bag@)),
{
    DeviceDraft {
        device: RocmDevice {
            product: text_field(bag, "Device Name"),
            card_series: text_field(bag, "Card Series"),
            subsystem: text_field(bag, "Subsystem ID"),
            vendor: text_field(bag, "Card Vendor"),
            gfx_version: text_field(bag, "GFX Version"),
            temp_edge: None,
            temp_hotspot: None,
            temp_mem: None,
            sclk_mhz: u32_field(bag, "sclk clock speed:"),
            mclk_mhz: u32_field(bag, "mclk clock speed:"),
            vram_total_mb: megabytes_field(bag, "VRAM Total Memory (B)", "vram_total_mb"),
            vram_used_mb: megabytes_field(bag, "VRAM Total Used Memory (B)", "vram_used_mb"),
            fan_rpm: u32_field(bag, "Fan RPM"),
            power_cap: None,
            power_avg: None,
            gpu_util: u32_field(bag, "GPU use (%)"),
            vram_util: u32_field(bag, "GPU Memory Allocated (VRAM%)"),
            vram_vendor: text_field(bag, "GPU memory vendor"),
            kind: None,
        },
        texts: FloatTexts {
            temp_edge: float_text_field(bag, "Temperature (Sensor edge) (C)"),
            temp_hotspot: float_text_field(bag, "Temperature (Sensor junction) (C)"),
            temp_mem: float_text_field(bag, "Temperature (Sensor memory) (C)"),
            power_cap: text_field(bag, "Max Graphics Package Power (W)"),
            power_avg: float_text_field(bag, "Average Graphics Package Power (W)"),
        },
    }
}

/// Keeps a reading where the device has a text for it.
fn reading(text: &Option<String>, value: Option<FloatBits>) -> (r: Option<FloatBits>)
    ensures
        r == spec_reading(spec_opt_text(*text), value),
{
    if text.is_some() {
        value
    } else {
        None
    }
}

impl DeviceDraft {
    /// Completes the device with the readings of its texts and classifies it.
    pub fn finish(self, readings: FloatReadings) -> (device: RocmDevice)
        ensures
            device@ == spec_finish(self@, readings),
    {
        let mut device = self.device;
        device.temp_edge = reading(&self.texts.temp_edge, readings.temp_edge);
        device.temp_hotspot = reading(&self.texts.temp_hotspot, readings.temp_hotspot);
        device.temp_mem = reading(&self.texts.temp_mem, readings.temp_mem);
        device.power_cap = reading(&self.texts.power_cap, readings.power_cap);
        device.power_avg = reading(&self.texts.power_avg, readings.power_avg);
        let kind = classify_gpu(&device);
        device.kind = Some(kind);
        device
    }
}

/// Tests whether a section name marks a device.
pub fn is_device_key(key: &str) -> (r: bool)
    ensures
        r == spec_is_device_key(key@),
{
    let chars = chars_of(key);
    let prefix = chars_of("card");
    starts_with(&chars, &prefix)
}

/// The document that a root stands for; `None` for a report that gave no
/// root.
pub open spec fn spec_root_doc(root: Option<RocmSnapshot>) -> Option<JsonView> {
    match root {
        Some(r) => Some(JsonView::Object(r@)),
        None => None,
    }
}

/// Two lists of members in which every name gives the same value stand for
/// the same draft.
pub proof fn lemma_same_answers_same_draft(
    a: Seq<(Seq<char>, JsonView)>,
    b: Seq<(Seq<char>, JsonView)>,
)
    requires
        spec_same_answers(a, b),
    ensures
        spec_draft(a) == spec_draft(b),
{
    assert(spec_draft(a).device == spec_draft(b).device);
    assert(spec_draft(a).texts == spec_draft(b).texts);
}

/// Roots that are alike give the same drafts, and fail alike.
pub proof fn lemma_alike_roots_same_drafts(
    a: Seq<(Seq<char>, JsonView)>,
    b: Seq<(Seq<char>, JsonView)>,
)
    requires
        spec_roots_alike(a, b),
    ensures
        spec_drafts(a) == spec_drafts(b),
        spec_devices_are_objects(a) == spec_devices_are_objects(b),
        spec_root_drafts(a) == spec_root_drafts(b),
    decreases a.len(),
{
    assert forall|i: int| 0 <= i < a.len() implies (#[trigger] a[i]).0 == b[i].0 && (a[i].1
        is Object <==> b[i].1 is Object) by {
        assert(a[i].0 == b[i].0 && spec_alike(a[i].1, b[i].1));
    }
    if spec_devices_are_objects(a) {
        assert forall|i: int| 0 <= i < b.len() && spec_is_device_key(
            (#[trigger] b[i]).0,
        ) implies b[i].1 is Object by {
            assert(a[i].0 == b[i].0);
        }
    }
    if spec_devices_are_objects(b) {
        assert forall|i: int| 0 <= i < a.len() && spec_is_device_key(
            (#[trigger] a[i]).0,
        ) implies a[i].1 is Object by {
            assert(a[i].0 == b[i].0);
        }
    }
    if a.len() > 0 {
        let a0 = a.drop_last();
        let b0 = b.drop_last();
        assert forall|i: int| 0 <= i < a0.len() implies (#[trigger] a0[i]).0 == b0[i].0
            && spec_alike(a0[i].1, b0[i].1) by {
            assert(a[i].0 == b[i].0 && spec_alike(a[i].1, b[i].1));
        }
        lemma_alike_roots_same_drafts(a0, b0);
        let n = a.len() - 1;
        assert(a[n].0 == b[n].0 && spec_alike(a[n].1, b[n].1));
        match (a[n].1, b[n].1) {
            (JsonView::Object(x), JsonView::Object(y)) => {
                lemma_same_answers_same_draft(x, y);
            },
            _ => {},
        }
    }
}

impl RocmSnapshot {
    /// Reads the root of a report: `None` where the bytes are not JSON or
    /// the document is no object at its root.
    pub fn parse(bytes: &[u8]) -> (r: Option<RocmSnapshot>)
        ensures
            r is Some <==> spec_is_root(json_document(bytes@)),
            r matches Some(root) ==> json_document(bytes@) == Some(JsonView::Object(root@)),
    {
        match read_value(bytes) {
            Ok(value) => match object_of(value) {
                Some(cards) => Some(RocmSnapshot { cards }),
                None => None,
            },
            Err(_) => None,
        }
    }

    /// Merges `extra` into the root. The root then has the names that it
    /// had, in the same order, and each section answers every lookup as
    /// `spec_merge` says.
    pub fn merge(&mut self, extra: &RocmSnapshot)
        ensures
            spec_roots_alike(final(self)@, spec_merge(old(self)@, extra@)),
            extra@.len() == 0 ==> final(self)@ == old(self)@,
    {
        merge_into(&mut self.cards, &extra.cards);
    }

    /// Reads the device sections of the root.
    pub fn drafts(&self) -> (r: Result<Vec<DeviceDraft>, SnapshotError>)
        ensures
            spec_outcome_view(r) == spec_root_drafts(self@),
    {
        let ghost all = self@;
        let entries = entries_of(&self.cards);
        let mut list: Vec<DeviceDraft> = Vec::new();
        let mut i: usize = 0;
        assert(all.take(0) =~= Seq::empty());
        assert(spec_draft_views(list@) =~= Seq::empty());
        while i < entries.len()
            invariant
                i <= entries.len(),
                all == self@,
                all == spec_entry_trees(entries@),
                spec_draft_views(list@) == spec_drafts(all.take(i as int)),
                forall|k: int|
                    0 <= k < i && spec_is_device_key((#[trigger] all[k]).0) ==> all[k].1 is Object,
            decreases entries.len() - i,
        {
            let ghost upto = all.take(i + 1);
            assert(upto.drop_last() == all.take(i as int));
            assert(upto.last() == all[i as int]);
            assert(all[i as int] == (entries[i as int].0@, value_tree(entries[i as int].1)));
            if is_device_key(entries[i].0.as_str()) {
                let tree = tree_of(&entries[i].1);
                match tree.as_object() {
                    Some(bag) => {
                        let draft = decode_device(bag);
                        let ghost before = list@;
                        list.push(draft);
                        assert(spec_draft_views(list@) =~= spec_draft_views(before).push(draft@));
                    },
                    None => {
                        assert(!(all[i as int].1 is Object));
                        return Err(SnapshotError::MalformedDevice);
                    },
                }
            }
            i += 1;
        }
        assert(all.take(entries.len() as int) == all);
        Ok(list)
    }
}

/// Makes the snapshot of four reports whose roots were read already: `None`
/// stands for a report that is not JSON or is no object at its root.
pub fn snapshot_of_roots(
    base: Option<RocmSnapshot>,
    clocks: &Option<RocmSnapshot>,
    memory: &Option<RocmSnapshot>,
    max_power: &Option<RocmSnapshot>,
) -> (r: Result<Vec<DeviceDraft>, SnapshotError>)
    ensures
        spec_outcome_view(r) == spec_snapshot(
            spec_root_doc(base),
            spec_root_doc(*clocks),
            spec_root_doc(*memory),
            spec_root_doc(*max_power),
        ),
{
    let mut root = match base {
        Some(root) => root,
        None => { return Err(SnapshotError::MalformedDocument(Report::Base)); },
    };
    let clocks = match clocks {
        Some(extra) => extra,
        None => { return Err(SnapshotError::MalformedDocument(Report::Clocks)); },
    };
    let memory = match memory {
        Some(extra) => extra,
        None => { return Err(SnapshotError::MalformedDocument(Report::Memory)); },
    };
    let max_power = match max_power {
        Some(extra) => extra,
        None => { return Err(SnapshotError::MalformedDocument(Report::MaxPower)); },
    };
    let ghost first = root@;
    root.merge(clocks);
    let ghost second = root@;
    let ghost model_second = spec_merge(first, clocks@);
    root.merge(memory);
    let ghost third = root@;
    let ghost model_third = spec_merge(model_second, memory@);
    root.merge(max_power);
    let ghost model_last = spec_merge(model_third, max_power@);
    proof {
        lemma_merge_alike(second, model_second, memory@);
        lemma_roots_alike_transitive(third, spec_merge(second, memory@), model_third);
        lemma_merge_alike(third, model_third, max_power@);
        lemma_roots_alike_transitive(root@, spec_merge(third, max_power@), model_last);
        lemma_alike_roots_same_drafts(root@, model_last);
    }
    root.drafts()
}

/// Makes the snapshot of the four reports of the tool, given as the bytes
/// that each wrote to its standard output.
pub fn full_snapshot(base: &[u8], clocks: &[u8], memory: &[u8], max_power: &[u8]) -> (r: Result<
    Vec<DeviceDraft>,
    SnapshotError,
>)
    ensures
        spec_outcome_view(r) == spec_snapshot(
            json_document(base@),
            json_document(clocks@),
            json_document(memory@),
            json_document(max_power@),
        ),
{
    let base = RocmSnapshot::parse(base);
    let clocks = RocmSnapshot::parse(clocks);
    let memory = RocmSnapshot::parse(memory);
    let max_power = RocmSnapshot::parse(max_power);
    snapshot_of_roots(base, &clocks, &memory, &max_power)
}

} // verus!

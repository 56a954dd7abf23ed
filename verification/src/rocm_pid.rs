//! The processes that use a GPU, as `rocm-smi --showpids --json` lists them:
//! a `system` section in which each process is one member, named `PID<digits>`
//! and holding a comma-separated row such as `ollama, 1, 6352367616, 0, unknown`.
use vstd::prelude::*;
use crate::decimal::{
    parse_digits_u32, parse_u32, parse_u64, spec_parse_digits_u32, spec_parse_u32, spec_parse_u64,
};
use crate::json::{json_document, parse_json, spec_members, Json, JsonView};
use crate::text::{
    chars_of, slice_of, spec_bounds_within, spec_runs, spec_split, spec_starts_with, spec_trim,
    split_bounds, starts_with, trim_bounds, CharClass,
};

verus! {

/// One process that uses a GPU.
#[derive(Debug, Clone, PartialEq, Eq)]
pub struct RocmPidInfo {
    /// The process id, from the member's name.
    pub pid: u32,
    /// The name of the executable.
    pub name: String,
    /// The index of the GPU that the process uses.
    pub gpu_index: u32,
    /// The video memory that the process holds, in bytes.
    pub vram_bytes: u64,
    /// The share of the compute engines that the process uses, in percent.
    pub engine_usage: u32,
    /// The state that the tool reports, mostly `unknown`.
    pub state: String,
}

/// The mathematical content of a [`RocmPidInfo`].
pub struct PidInfoView {
    pub pid: u32,
    pub name: Seq<char>,
    pub gpu_index: u32,
    pub vram_bytes: u64,
    pub engine_usage: u32,
    pub state: Seq<char>,
}

impl View for RocmPidInfo {
    type V = PidInfoView;

    open spec fn view(&self) -> PidInfoView {
        PidInfoView {
            pid: self.pid,
            name: self.name@,
            gpu_index: self.gpu_index,
            vram_bytes: self.vram_bytes,
            engine_usage: self.engine_usage,
            state: self.state@,
        }
    }
}

/// The letters that open the name of a process member.
pub open spec fn spec_pid_prefix() -> Seq<char> {
    seq!['P', 'I', 'D']
}

/// The process id in a member's name: the name is `PID` followed by digits
/// that write a `u32`.
pub open spec fn spec_pid_of_key(key: Seq<char>) -> Option<u32> {
    if spec_starts_with(key, spec_pid_prefix()) {
        spec_parse_digits_u32(key.skip(3))
    } else {
        None
    }
}

/// The piece at index `i` of a row, without the white space around it.
pub open spec fn spec_token(pieces: Seq<Seq<char>>, i: int) -> Option<Seq<char>> {
    if 0 <= i < pieces.len() {
        Some(spec_trim(pieces[i], CharClass::Whitespace))
    } else {
        None
    }
}

/// The `u32` written by an optional piece.
pub open spec fn spec_token_u32(token: Option<Seq<char>>) -> Option<u32> {
    match token {
        Some(t) => spec_parse_u32(t),
        None => None,
    }
}

/// The `u64` written by an optional piece.
pub open spec fn spec_token_u64(token: Option<Seq<char>>) -> Option<u64> {
    match token {
        Some(t) => spec_parse_u64(t),
        None => None,
    }
}

/// The record that a member of the `system` section stands for. The name,
/// the GPU index and the memory size are the first three pieces of the row;
/// the member gives no record unless its name holds a process id and the
/// second and third piece are numbers. The engine usage is the fourth piece,
/// or 0 where that is missing or no number; the state is the fifth piece, or
/// `unknown` where the row has none.
pub open spec fn spec_parse_row(key: Seq<char>, value: Seq<char>) -> Option<PidInfoView> {
    let pieces = spec_split(value, ',');
    let pid = spec_pid_of_key(key);
    let gpu_index = spec_token_u32(spec_token(pieces, 1));
    let vram_bytes = spec_token_u64(spec_token(pieces, 2));
    if pid is Some && gpu_index is Some && vram_bytes is Some {
        Some(
            PidInfoView {
                pid: pid->0,
                name: spec_token(pieces, 0)->0,
                gpu_index: gpu_index->0,
                vram_bytes: vram_bytes->0,
                engine_usage: match spec_token_u32(spec_token(pieces, 3)) {
                    Some(n) => n,
                    None => 0,
                },
                state: match spec_token(pieces, 4) {
                    Some(t) => t,
                    None => "unknown"@,
                },
            },
        )
    } else {
        None
    }
}

/// The content of an optional record.
pub open spec fn spec_opt_pid_view(info: Option<RocmPidInfo>) -> Option<PidInfoView> {
    match info {
        Some(p) => Some(p@),
        None => None,
    }
}

/// The records of the members of a `system` section, in the order of the
/// members. A member that is no string, or whose row gives no record, adds
/// nothing and changes nothing for the others.
pub open spec fn spec_rows(members: Seq<(Seq<char>, JsonView)>) -> Seq<PidInfoView>
    decreases members.len(),
{
    if members.len() == 0 {
        Seq::empty()
    } else {
        let before = spec_rows(members.drop_last());
        match spec_row_of(members.last()) {
            Some(info) => before.push(info),
            None => before,
        }
    }
}

/// The record of one member, if it has one.
pub open spec fn spec_row_of(member: (Seq<char>, JsonView)) -> Option<PidInfoView> {
    match member.1 {
        JsonView::Text(row) => spec_parse_row(member.0, row),
        _ => None,
    }
}

/// The process list of a document: the records of its `system` section, or
/// nothing where the document has no such section or the section is no object.
pub open spec fn spec_process_list(root: JsonView) -> Seq<PidInfoView> {
    match root.get("system"@) {
        Some(JsonView::Object(members)) => spec_rows(members),
        _ => Seq::empty(),
    }
}

/// The content of a list of records.
pub open spec fn spec_pid_views(list: Seq<RocmPidInfo>) -> Seq<PidInfoView> {
    Seq::new(list.len(), |i: int| list[i]@)
}

/// Finds the piece at index `i` of a row, without the white space around
/// it: the bounds of what is left of the piece.
fn token(row: &Vec<char>, pieces: &Vec<(usize, usize)>, i: usize) -> (r: Option<(usize, usize)>)
    requires
        spec_bounds_within(pieces@, row.len() as int),
    ensures
        r is Some <==> i < pieces.len(),
        r matches Some(t) ==> t.0 <= t.1 <= row.len() && spec_token(
            spec_runs(row@, pieces@),
            i as int,
        ) == Some(row@.subrange(t.0 as int, t.1 as int)),
        r is None ==> spec_token(spec_runs(row@, pieces@), i as int) is None,
{
    if i < pieces.len() {
        Some(trim_bounds(row, pieces[i].0, pieces[i].1, CharClass::Whitespace))
    } else {
        None
    }
}

/// Copies the characters of `text` from index `from` up to `to` into a
/// string of their own.
fn owned_run(text: &str, from: usize, to: usize) -> (out: String)
    requires
        from <= to <= text@.len(),
    ensures
        out@ == text@.subrange(from as int, to as int),
{
    text.substring_char(from, to).to_owned()
}

/// Reads the process id from a member's name.
pub fn pid_of_key(key: &str) -> (r: Option<u32>)
    ensures
        r == spec_pid_of_key(key@),
{
    let chars = chars_of(key);
    let prefix: Vec<char> = vec!['P', 'I', 'D'];
    assert(prefix@ == spec_pid_prefix());
    if starts_with(&chars, &prefix) {
        parse_digits_u32(&chars, 3)
    } else {
        None
    }
}

impl RocmPidInfo {
    /// Reads one member of the `system` section: `key` is its name, such as
    /// `PID144763`, and `value` its row, such as
    /// `ollama, 1, 6352367616, 0, unknown`.
    pub fn parse(key: &str, value: &str) -> (r: Option<RocmPidInfo>)
        ensures
            spec_opt_pid_view(r) == spec_parse_row(key@, value@),
    {
        let pid = match pid_of_key(key) {
            Some(pid) => pid,
            None => { return None; },
        };
        let row = chars_of(value);
        let pieces = split_bounds(&row, ',');
        let name = match token(&row, &pieces, 0) {
            Some(t) => t,
            None => { return None; },
        };
        let gpu_index = match token(&row, &pieces, 1) {
            Some(t) => match parse_u32(&slice_of(&row, t.0, t.1)) {
                Some(n) => n,
                None => { return None; },
            },
            None => { return None; },
        };
        let vram_bytes = match token(&row, &pieces, 2) {
            Some(t) => match parse_u64(&slice_of(&row, t.0, t.1)) {
                Some(n) => n,
                None => { return None; },
            },
            None => { return None; },
        };
        let engine_usage: u32 = match token(&row, &pieces, 3) {
            Some(t) => match parse_u32(&slice_of(&row, t.0, t.1)) {
                Some(n) => n,
                None => 0,
            },
            None => 0,
        };
        let state = match token(&row, &pieces, 4) {
            Some(t) => owned_run(value, t.0, t.1),
            None => "unknown".to_owned(),
        };
        Some(
            RocmPidInfo {
                pid,
                name: owned_run(value, name.0, name.1),
                gpu_index,
                vram_bytes,
                engine_usage,
                state,
            },
        )
    }
}

/// Reads the row of one member, if the member holds a string.
fn row_of(member: &(String, Json)) -> (r: Option<RocmPidInfo>)
    ensures
        spec_opt_pid_view(r) == spec_row_of((member.0@, member.1@)),
{
    match &member.1 {
        Json::Text(row) => RocmPidInfo::parse(member.0.as_str(), row.as_str()),
        _ => None,
    }
}

/// Lists the processes of a `--showpids` document.
pub fn parse_rocm_pid_json(root: &Json) -> (list: Vec<RocmPidInfo>)
    ensures
        spec_pid_views(list@) == spec_process_list(root@),
{
    let mut list: Vec<RocmPidInfo> = Vec::new();
    let members = match root.get("system") {
        Some(section) => match section.as_object() {
            Some(members) => members,
            None => {
                assert(spec_pid_views(list@) =~= Seq::empty());
                return list;
            },
        },
        None => {
            assert(spec_pid_views(list@) =~= Seq::empty());
            return list;
        },
    };
    let ghost all = spec_members(members@);
    let mut i: usize = 0;
    assert(all.take(0) =~= Seq::empty());
    assert(spec_pid_views(list@) =~= Seq::empty());
    while i < members.len()
        invariant
            i <= members.len(),
            all == spec_members(members@),
            spec_pid_views(list@) == spec_rows(all.take(i as int)),
        decreases members.len() - i,
    {
        let ghost upto = all.take(i + 1);
        assert(upto.drop_last() == all.take(i as int));
        assert(upto.last() == (members[i as int].0@, members[i as int].1@));
        let ghost before = list@;
        match row_of(&members[i]) {
            Some(info) => {
                list.push(info);
                assert(spec_pid_views(list@) =~= spec_pid_views(before).push(info@));
            },
            None => {},
        }
        i += 1;
    }
    assert(all.take(members.len() as int) == all);
    list
}

/// Why no process list could be made.
#[derive(Debug, Clone, Copy, PartialEq, Eq, Hash, Structural)]
pub enum PidListError {
    /// The report is not JSON, or is no object at its root.
    MalformedDocument,
}

/// The process list of a report, given as what was read from it: the list
/// of the document where it is an object at its root, and the error where
/// the report is not JSON or its root is anything else.
pub open spec fn spec_query(doc: Option<JsonView>) -> Result<Seq<PidInfoView>, PidListError> {
    match doc {
        Some(JsonView::Object(members)) => Ok(spec_process_list(JsonView::Object(members))),
        _ => Err(PidListError::MalformedDocument),
    }
}

/// The content of the outcome of a query.
pub open spec fn spec_query_view(outcome: Result<Vec<RocmPidInfo>, PidListError>) -> Result<
    Seq<PidInfoView>,
    PidListError,
> {
    match outcome {
        Ok(list) => Ok(spec_pid_views(list@)),
        Err(e) => Err(e),
    }
}

/// The list that is shown for the outcome of running the tool: the processes
/// in its output, or none where it could not be run or the query fails.
pub open spec fn spec_shown_list(output: Option<Seq<u8>>) -> Seq<PidInfoView> {
    match output {
        Some(bytes) => match spec_query(json_document(bytes)) {
            Ok(list) => list,
            Err(_) => Seq::empty(),
        },
        None => Seq::empty(),
    }
}

/// Lists the processes in the bytes that `rocm-smi --showpids --json` wrote.
pub fn query_rocm_pids(output: &[u8]) -> (r: Result<Vec<RocmPidInfo>, PidListError>)
    ensures
        spec_query_view(r) == spec_query(json_document(output@)),
{
    match parse_json(output) {
        Some(root) => if root.as_object().is_some() {
            Ok(parse_rocm_pid_json(&root))
        } else {
            Err(PidListError::MalformedDocument)
        },
        None => Err(PidListError::MalformedDocument),
    }
}

/// Lists the processes for display: `output` is what the tool wrote, or
/// `None` where it could not be run. A failure shows as an empty list.
pub fn list_rocm_pids(output: Option<&[u8]>) -> (list: Vec<RocmPidInfo>)
    ensures
        spec_pid_views(list@) == spec_shown_list(
            match output {
                Some(bytes) => Some(bytes@),
                None => None,
            },
        ),
{
    let found = match output {
        Some(bytes) => query_rocm_pids(bytes),
        None => Err(PidListError::MalformedDocument),
    };
    match found {
        Ok(list) => list,
        Err(_) => {
            let list: Vec<RocmPidInfo> = Vec::new();
            assert(spec_pid_views(list@) =~= Seq::empty());
            list
        },
    }
}

/// A document without a `system` section lists no process.
pub proof fn lemma_no_system_section(root: JsonView)
    requires
        root.get("system"@) is None,
    ensures
        spec_process_list(root) == Seq::<PidInfoView>::empty(),
{
}

/// The members of a section are read one by one: the records of two runs of
/// members, one after the other, are the records of the first run followed by
/// those of the second.
pub proof fn lemma_rows_concat(
    first: Seq<(Seq<char>, JsonView)>,
    second: Seq<(Seq<char>, JsonView)>,
)
    ensures
        spec_rows(first + second) == spec_rows(first) + spec_rows(second),
    decreases second.len(),
{
    if second.len() == 0 {
        assert(first + second == first);
        assert(spec_rows(first) + spec_rows(second) == spec_rows(first));
    } else {
        lemma_rows_concat(first, second.drop_last());
        assert((first + second).drop_last() == first + second.drop_last());
        assert((first + second).last() == second.last());
        match spec_row_of(second.last()) {
            Some(info) => {
                assert(spec_rows(first) + spec_rows(second.drop_last()).push(info) == (spec_rows(
                    first,
                ) + spec_rows(second.drop_last())).push(info));
            },
            None => {},
        }
    }
}

/// A row with fewer than three pieces gives no record.
pub proof fn lemma_short_row_dropped(key: Seq<char>, value: Seq<char>)
    requires
        spec_split(value, ',').len() < 3,
    ensures
        spec_parse_row(key, value) is None,
{
}

/// A member whose row gives no record leaves the list as it is without the
/// member: the members before and after it give the records that they give
/// alone.
pub proof fn lemma_dropped_row_leaves_others(
    before: Seq<(Seq<char>, JsonView)>,
    member: (Seq<char>, JsonView),
    after: Seq<(Seq<char>, JsonView)>,
)
    requires
        spec_row_of(member) is None,
    ensures
        spec_rows(before + seq![member] + after) == spec_rows(before) + spec_rows(after),
{
    lemma_rows_concat(before + seq![member], after);
    lemma_rows_concat(before, seq![member]);
    assert(seq![member].drop_last() == Seq::<(Seq<char>, JsonView)>::empty());
    assert(spec_rows(seq![member]) == Seq::<PidInfoView>::empty()) by {
        assert(seq![member].last() == member);
        assert(spec_rows(seq![member].drop_last()) == Seq::<PidInfoView>::empty());
    }
    assert(spec_rows(before) + Seq::<PidInfoView>::empty() == spec_rows(before));
}

} // verus!

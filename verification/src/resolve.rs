//! The partition resolver: finds the device node of the partition that
//! carries a given partition UUID, from what the kernel tells of each
//! block device in its `uevent` file.

use crate::error::{Error, ErrorView};
use crate::sys::entries_view;
use crate::text::{
    chars_of, line_spans, lines, span_starts_with, span_text, spans_of, strip_prefix, Span,
};
use vstd::prelude::*;

verus! {

/// What a `uevent` file tells of a partition: the name of its device
/// node and its partition UUID.
#[derive(Clone, Debug, PartialEq, Eq)]
pub struct PartitionRecord {
    pub device_name: String,
    pub partition_uuid: String,
}

/// The mathematical content of a [`PartitionRecord`].
pub struct PartitionRecordView {
    pub device_name: Seq<char>,
    pub partition_uuid: Seq<char>,
}

impl View for PartitionRecord {
    type V = PartitionRecordView;

    open spec fn view(&self) -> PartitionRecordView {
        PartitionRecordView {
            device_name: self.device_name@,
            partition_uuid: self.partition_uuid@,
        }
    }
}

/// What has been found so far in a `uevent` file: the device name and
/// the partition UUID, each if a line gave it.
pub struct Found {
    pub device_name: Option<Seq<char>>,
    pub partition_uuid: Option<Seq<char>>,
}

impl Found {
    /// Whether both values have been found.
    pub open spec fn complete(self) -> bool {
        self.device_name is Some && self.partition_uuid is Some
    }

    /// What is found once `line` has been read too: a `DEVNAME=` line
    /// gives the device name, a `PARTUUID=` line the partition UUID, each
    /// in place of what an earlier line gave; any other line gives
    /// nothing.
    pub open spec fn read(self, line: Seq<char>) -> Found {
        match strip_prefix(line, "DEVNAME="@) {
            Some(value) => Found { device_name: Some(value), ..self },
            None => match strip_prefix(line, "PARTUUID="@) {
                Some(value) => Found { partition_uuid: Some(value), ..self },
                None => self,
            },
        }
    }

    /// What is found once `lines` have been read too, one after the
    /// other, up to the line that makes the two values complete. The
    /// lines behind that one are not read.
    pub open spec fn read_all(self, lines: Seq<Seq<char>>) -> Found
        decreases lines.len(),
    {
        if lines.len() == 0 || self.complete() {
            self
        } else {
            self.read(lines[0]).read_all(lines.drop_first())
        }
    }
}

/// The record that a `uevent` file with these contents gives, or `None`
/// where it lacks a device name or a partition UUID.
pub open spec fn spec_parse_uevent(contents: Seq<char>) -> Option<PartitionRecordView> {
    let found = Found::nothing().read_all(lines(contents));
    if found.complete() {
        Some(
            PartitionRecordView {
                device_name: found.device_name->0,
                partition_uuid: found.partition_uuid->0,
            },
        )
    } else {
        None
    }
}

/// Reads the device name and the partition UUID out of the contents of
/// a `uevent` file.
pub fn parse_uevent(contents: &str) -> (r: Option<PartitionRecord>)
    ensures
        match r {
            Some(record) => spec_parse_uevent(contents@) == Some(record@),
            None => spec_parse_uevent(contents@) is None,
        },
{
    let chars = chars_of(contents);
    let spans = line_spans(&chars);
    let device_key = chars_of("DEVNAME=");
    let uuid_key = chars_of("PARTUUID=");
    let mut device: Option<Span> = None;
    let mut uuid: Option<Span> = None;
    let ghost all = lines(chars@);
    let ghost nothing = Found { device_name: None, partition_uuid: None };
    let mut i: usize = 0;
    assert(all.skip(0) =~= all);
    while i < spans.len() && !(device.is_some() && uuid.is_some())
        invariant
            i <= spans@.len(),
            chars@ == contents@,
            all == lines(chars@),
            spans_of(chars@, spans@) == all,
            crate::text::spans_within(spans@, chars@.len()),
            device_key@ == "DEVNAME="@,
            uuid_key@ == "PARTUUID="@,
            device matches Some(span) ==> span.within(chars@.len()),
            uuid matches Some(span) ==> span.within(chars@.len()),
            nothing == (Found { device_name: None, partition_uuid: None }),
            nothing.read_all(all) == (Found {
                device_name: span_text(chars@, device),
                partition_uuid: span_text(chars@, uuid),
            }).read_all(all.skip(i as int)),
        decreases spans@.len() - i,
    {
        let span = spans[i];
        proof {
            assert(span.within(chars@.len()));
            assert(all.skip(i as int)[0] == span.of(chars@));
            assert(all.skip(i as int).drop_first() =~= all.skip(i + 1));
        }
        if span_starts_with(&chars, span, &device_key) {
            device = Some(Span { start: span.start + device_key.len(), end: span.end });
        } else if span_starts_with(&chars, span, &uuid_key) {
            uuid = Some(Span { start: span.start + uuid_key.len(), end: span.end });
        }
        i += 1;
    }
    match (device, uuid) {
        (Some(device), Some(uuid)) => Some(
            PartitionRecord {
                device_name: contents.substring_char(device.start, device.end).to_string(),
                partition_uuid: contents.substring_char(uuid.start, uuid.end).to_string(),
            },
        ),
        _ => None,
    }
}

/// Whether a block device is the partition with the given UUID: its
/// `uevent` file could be read, gives a record, and the partition UUID
/// of the record is `uuid`, character for character.
pub open spec fn entry_matches(entry: Option<Seq<char>>, uuid: Seq<char>) -> bool {
    &&& entry matches Some(contents)
    &&& spec_parse_uevent(contents) matches Some(record)
    &&& record.partition_uuid == uuid
}

/// The path of the device node of a block device: `/dev/` and the
/// device name that its `uevent` file gives.
pub open spec fn device_node(entry: Option<Seq<char>>) -> Seq<char> {
    "/dev/"@ + spec_parse_uevent(entry->0)->0.device_name
}

/// Whether `i` is the first of `entries` that matches `uuid`.
pub open spec fn is_first_match(entries: Seq<Option<Seq<char>>>, uuid: Seq<char>, i: int) -> bool {
    &&& 0 <= i < entries.len()
    &&& entry_matches(entries[i], uuid)
    &&& forall|j: int| 0 <= j < i ==> !entry_matches(#[trigger] entries[j], uuid)
}

/// The device node of the first of `entries` that matches `uuid`, or
/// the not-found error that names `uuid` where none does. The entries
/// stand in the order in which the directory listed them, which the
/// kernel does not promise to keep from one boot to the next.
pub open spec fn spec_resolve_uuid(entries: Seq<Option<Seq<char>>>, uuid: Seq<char>) -> Result<
    Seq<char>,
    ErrorView,
> {
    if exists|i: int| is_first_match(entries, uuid, i) {
        Ok(device_node(entries[choose|i: int| is_first_match(entries, uuid, i)]))
    } else {
        Err(ErrorView::PartitionNotFound { uuid })
    }
}

/// Finds the device node of the partition with the UUID `uuid` among
/// the block devices whose `uevent` contents are `entries`. An entry
/// that could not be read is `None` and is passed over.
pub fn resolve_uuid(entries: &Vec<Option<String>>, uuid: &str) -> (r: Result<String, Error>)
    ensures
        match r {
            Ok(path) => spec_resolve_uuid(entries_view(entries@), uuid@) == Ok::<
                Seq<char>,
                ErrorView,
            >(path@),
            Err(e) => spec_resolve_uuid(entries_view(entries@), uuid@) == Err::<
                Seq<char>,
                ErrorView,
            >(e@),
        },
{
    let ghost model = entries_view(entries@);
    let wanted = uuid.to_string();
    let mut i: usize = 0;
    while i < entries.len()
        invariant
            i <= entries@.len(),
            model == entries_view(entries@),
            wanted@ == uuid@,
            forall|j: int| 0 <= j < i ==> !entry_matches(#[trigger] model[j], uuid@),
        decreases entries@.len() - i,
    {
        match &entries[i] {
            Some(contents) => {
                assert(model[i as int] == Some(contents@));
                match parse_uevent(contents.as_str()) {
                    Some(record) => {
                        if record.partition_uuid == wanted {
                            let mut path = "/dev/".to_string();
                            path.append(record.device_name.as_str());
                            proof {
                                assert(is_first_match(model, uuid@, i as int));
                                let first = choose|k: int| is_first_match(model, uuid@, k);
                                assert(first == i);
                            }
                            return Ok(path);
                        }
                    },
                    None => {},
                }
            },
            None => {
                assert(model[i as int] is None);
            },
        }
        i += 1;
    }
    proof {
        assert forall|k: int| !is_first_match(model, uuid@, k) by {}
    }
    Err(Error::PartitionNotFound { uuid: wanted })
}

/// A lookup never answers with a partial match: the path it returns is
/// the device node of an entry whose partition UUID is the one asked
/// for, and no entry before that one has it.
pub proof fn lemma_resolve_is_exact(entries: Seq<Option<Seq<char>>>, uuid: Seq<char>)
    ensures
        match spec_resolve_uuid(entries, uuid) {
            Ok(path) => exists|i: int|
                is_first_match(entries, uuid, i) && path == device_node(#[trigger] entries[i]),
            Err(e) => e == (ErrorView::PartitionNotFound { uuid }) && forall|i: int|
                0 <= i < entries.len() ==> !entry_matches(#[trigger] entries[i], uuid),
        },
{
    if exists|i: int| is_first_match(entries, uuid, i) {
        let first = choose|i: int| is_first_match(entries, uuid, i);
        assert(is_first_match(entries, uuid, first));
    } else {
        lemma_some_match_is_first(entries, uuid, entries.len() as int);
    }
}

/// Where one of the first `n` entries matches, one of them is the first
/// to match.
proof fn lemma_some_match_is_first(entries: Seq<Option<Seq<char>>>, uuid: Seq<char>, n: int)
    requires
        0 <= n <= entries.len(),
    ensures
        (exists|i: int| 0 <= i < n && entry_matches(#[trigger] entries[i], uuid)) ==> exists|
            i: int,
        |
            0 <= i < n && is_first_match(entries, uuid, i),
    decreases n,
{
    if n > 0 {
        lemma_some_match_is_first(entries, uuid, n - 1);
        if exists|i: int| 0 <= i < n - 1 && entry_matches(#[trigger] entries[i], uuid) {
            let i = choose|i: int| 0 <= i < n - 1 && is_first_match(entries, uuid, i);
            assert(0 <= i < n && is_first_match(entries, uuid, i));
        } else if entry_matches(entries[n - 1], uuid) {
            assert(is_first_match(entries, uuid, n - 1));
        }
    }
}

/// A UUID that exactly one entry carries resolves to the device node of
/// that entry.
pub proof fn lemma_resolve_unique(entries: Seq<Option<Seq<char>>>, uuid: Seq<char>, i: int)
    requires
        0 <= i < entries.len(),
        entry_matches(entries[i], uuid),
        forall|j: int| 0 <= j < entries.len() && j != i ==> !entry_matches(entries[j], uuid),
    ensures
        spec_resolve_uuid(entries, uuid) == Ok::<Seq<char>, ErrorView>(device_node(entries[i])),
{
    lemma_resolve_first(entries, uuid, i);
}

/// A UUID that no entry carries does not resolve: the lookup fails with
/// the not-found error that names the UUID.
pub proof fn lemma_resolve_absent(entries: Seq<Option<Seq<char>>>, uuid: Seq<char>)
    requires
        forall|j: int| 0 <= j < entries.len() ==> !entry_matches(entries[j], uuid),
    ensures
        spec_resolve_uuid(entries, uuid) == Err::<Seq<char>, ErrorView>(
            ErrorView::PartitionNotFound { uuid },
        ),
{
}

/// A UUID that several entries carry resolves to the device node of the
/// one that the listing gave first, whatever stands behind it.
pub proof fn lemma_resolve_first(entries: Seq<Option<Seq<char>>>, uuid: Seq<char>, i: int)
    requires
        0 <= i < entries.len(),
        entry_matches(entries[i], uuid),
        forall|j: int| 0 <= j < i ==> !entry_matches(entries[j], uuid),
    ensures
        spec_resolve_uuid(entries, uuid) == Ok::<Seq<char>, ErrorView>(device_node(entries[i])),
{
    assert(is_first_match(entries, uuid, i));
    let first = choose|k: int| is_first_match(entries, uuid, k);
    assert(first == i);
}

/// Whether a line gives the device name.
pub open spec fn is_name_line(line: Seq<char>) -> bool {
    strip_prefix(line, "DEVNAME="@) is Some
}

/// Whether a line gives the partition UUID.
pub open spec fn is_uuid_line(line: Seq<char>) -> bool {
    strip_prefix(line, "DEVNAME="@) is None && strip_prefix(line, "PARTUUID="@) is Some
}

impl Found {
    /// Nothing found yet.
    pub open spec fn nothing() -> Found {
        Found { device_name: None, partition_uuid: None }
    }

    /// What is found once the first `n` of `lines` have been read, all
    /// of them.
    pub open spec fn read_first(self, lines: Seq<Seq<char>>, n: int) -> Found
        decreases n,
    {
        if n <= 0 {
            self
        } else {
            self.read_first(lines, n - 1).read(lines[n - 1])
        }
    }
}

/// Reading stops at the first line that makes the two values complete:
/// what is found in a file is what its first `n` lines give, where `n`
/// is the least number of lines that give both values, or the number of
/// all lines where the file never gives both.
pub proof fn lemma_read_stops_when_complete(lines: Seq<Seq<char>>, n: int)
    requires
        0 <= n <= lines.len(),
        forall|k: int| 0 <= k < n ==> !(#[trigger] Found::nothing().read_first(lines, k)).complete(),
        n == lines.len() || Found::nothing().read_first(lines, n).complete(),
    ensures
        Found::nothing().read_all(lines) == Found::nothing().read_first(lines, n),
{
    lemma_read_from(lines, n, 0);
    assert(lines.skip(0) =~= lines);
}

/// Reading from the line `k` on, with what the lines before it gave.
proof fn lemma_read_from(lines: Seq<Seq<char>>, n: int, k: int)
    requires
        0 <= k <= n <= lines.len(),
        forall|i: int| 0 <= i < n ==> !(#[trigger] Found::nothing().read_first(lines, i)).complete(),
        n == lines.len() || Found::nothing().read_first(lines, n).complete(),
    ensures
        Found::nothing().read_first(lines, k).read_all(lines.skip(k)) == Found::nothing().read_first(
            lines,
            n,
        ),
    decreases n - k,
{
    let found = Found::nothing().read_first(lines, k);
    if k < n {
        assert(!found.complete());
        assert(lines.skip(k)[0] == lines[k]);
        assert(lines.skip(k).drop_first() =~= lines.skip(k + 1));
        assert(Found::nothing().read_first(lines, k + 1) == found.read(lines[k]));
        lemma_read_from(lines, n, k + 1);
    }
}

/// What the first `n` lines give: for each of the two values, the text
/// behind the key in the last line that gives the value, and nothing
/// where no line does.
pub proof fn lemma_read_first(lines: Seq<Seq<char>>, n: int)
    requires
        0 <= n <= lines.len(),
    ensures
        ({
            let found = Found::nothing().read_first(lines, n);
            &&& found.device_name is None <==> forall|k: int|
                0 <= k < n ==> !is_name_line(#[trigger] lines[k])
            &&& found.partition_uuid is None <==> forall|k: int|
                0 <= k < n ==> !is_uuid_line(#[trigger] lines[k])
            &&& forall|i: int|
                0 <= i < n && is_name_line(#[trigger] lines[i]) && (forall|k: int|
                    i < k < n ==> !is_name_line(#[trigger] lines[k])) ==> found.device_name
                    == strip_prefix(lines[i], "DEVNAME="@)
            &&& forall|i: int|
                0 <= i < n && is_uuid_line(#[trigger] lines[i]) && (forall|k: int|
                    i < k < n ==> !is_uuid_line(#[trigger] lines[k])) ==> found.partition_uuid
                    == strip_prefix(lines[i], "PARTUUID="@)
        }),
    decreases n,
{
    if n > 0 {
        lemma_read_first(lines, n - 1);
        let before = Found::nothing().read_first(lines, n - 1);
        let found = Found::nothing().read_first(lines, n);
        assert(found == before.read(lines[n - 1]));
        let last = lines[n - 1];
        if is_name_line(last) {
            assert(found.device_name == strip_prefix(last, "DEVNAME="@));
            assert(found.partition_uuid == before.partition_uuid);
        } else if is_uuid_line(last) {
            assert(found.partition_uuid == strip_prefix(last, "PARTUUID="@));
            assert(found.device_name == before.device_name);
        } else {
            assert(found == before);
        }
        assert forall|i: int|
            0 <= i < n && is_name_line(#[trigger] lines[i]) && (forall|k: int|
                i < k < n ==> !is_name_line(#[trigger] lines[k])) implies found.device_name
            == strip_prefix(lines[i], "DEVNAME="@) by {
            if i < n - 1 {
                assert(!is_name_line(lines[n - 1]));
            }
        }
        assert forall|i: int|
            0 <= i < n && is_uuid_line(#[trigger] lines[i]) && (forall|k: int|
                i < k < n ==> !is_uuid_line(#[trigger] lines[k])) implies found.partition_uuid
            == strip_prefix(lines[i], "PARTUUID="@) by {
            if i < n - 1 {
                assert(!is_uuid_line(lines[n - 1]));
            }
        }
        if found.device_name is None {
            assert(!is_name_line(last));
        } else if !is_name_line(last) {
            let k = choose|k: int| 0 <= k < n - 1 && is_name_line(#[trigger] lines[k]);
            assert(is_name_line(lines[k]));
        }
        if found.partition_uuid is None {
            assert(!is_uuid_line(last));
        } else if !is_uuid_line(last) {
            let k = choose|k: int| 0 <= k < n - 1 && is_uuid_line(#[trigger] lines[k]);
            assert(is_uuid_line(lines[k]));
        }
    }
}

/// A file gives a record exactly where one of its lines gives the
/// device name and one the partition UUID.
pub proof fn lemma_uevent_gives_record(contents: Seq<char>)
    ensures
        spec_parse_uevent(contents) is Some <==> (exists|i: int|
            0 <= i < lines(contents).len() && is_name_line(#[trigger] lines(contents)[i]))
            && (exists|j: int|
            0 <= j < lines(contents).len() && is_uuid_line(#[trigger] lines(contents)[j])),
{
    let all = lines(contents);
    let n = least_complete(all, 0);
    lemma_least_complete(all, 0);
    lemma_read_stops_when_complete(all, n);
    lemma_read_first(all, n);
    let found = Found::nothing().read_first(all, n);
    if found.complete() {
        let i = choose|i: int| 0 <= i < n && is_name_line(#[trigger] all[i]);
        let j = choose|j: int| 0 <= j < n && is_uuid_line(#[trigger] all[j]);
        assert(is_name_line(all[i]) && is_uuid_line(all[j]));
    } else {
        assert(n == all.len());
    }
}

/// The least number of lines, `from` or more, that give both values, or
/// the number of all lines where no such number gives both.
spec fn least_complete(lines: Seq<Seq<char>>, from: int) -> int
    decreases lines.len() - from,
{
    if from >= lines.len() || Found::nothing().read_first(lines, from).complete() {
        if from >= lines.len() {
            lines.len() as int
        } else {
            from
        }
    } else {
        least_complete(lines, from + 1)
    }
}

/// `least_complete` is the least such number.
proof fn lemma_least_complete(lines: Seq<Seq<char>>, from: int)
    requires
        0 <= from <= lines.len(),
    ensures
        from <= least_complete(lines, from) <= lines.len(),
        forall|k: int|
            from <= k < least_complete(lines, from) ==> !(#[trigger] Found::nothing().read_first(
                lines,
                k,
            )).complete(),
        least_complete(lines, from) == lines.len() || Found::nothing().read_first(
            lines,
            least_complete(lines, from),
        ).complete(),
    decreases lines.len() - from,
{
    if from < lines.len() && !Found::nothing().read_first(lines, from).complete() {
        lemma_least_complete(lines, from + 1);
    }
}

} // verus!

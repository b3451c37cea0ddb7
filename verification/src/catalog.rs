//! Enumeration: the inspection of one process's token, and the catalogue
//! that the inspections of all processes make.

use vstd::prelude::*;
use vstd::seq_lib::to_multiset_insert;
use crate::token::{
    because, explain, raws, Handle, OsError, Owner, OwnerView, ProcessAccess, Release,
    ReleaseView, TokenAccess, TokenDetails, TokenRecord, TokenRecordView,
};
use crate::text::texts;

verus! {

/// The enumeration failed as a whole: the operating system gave no list of
/// processes.
#[derive(Clone, Copy, Debug, PartialEq, Eq, Structural)]
pub struct CatalogError {
    pub os: OsError,
}

impl CatalogError {
    /// The error as a message.
    pub open spec fn spec_message(self) -> Seq<char> {
        because("process enumeration failed"@, self.os)
    }

    /// The error as a message.
    pub fn message(&self) -> (message: String)
        ensures
            message@ == self.spec_message(),
    {
        explain("process enumeration failed", self.os)
    }
}

/// An inspection that wants its process opened, with the rights to query
/// its token and no more.
#[derive(Debug, PartialEq, Eq)]
pub struct Inspection {
    pub pid: u32,
}

/// An inspection that holds its process and wants the primary token of the
/// process opened, read-only.
#[derive(Debug, PartialEq, Eq)]
pub struct InspectedProcess {
    pub pid: u32,
    pub process: Handle,
}

/// An inspection that holds its process and the token, and wants the
/// token's owner resolved and its details read.
#[derive(Debug, PartialEq, Eq)]
pub struct InspectedToken {
    pub pid: u32,
    pub process: Handle,
    pub token: Handle,
}

/// The end of an inspection: what is to be released, and the record, if the
/// token could be read.
#[derive(Debug, PartialEq, Eq)]
pub struct Inspected {
    pub release: Release,
    pub record: Option<TokenRecord>,
}

/// The end of an inspection, by its views.
pub struct InspectedView {
    pub release: ReleaseView,
    pub record: Option<TokenRecordView>,
}

impl View for Inspected {
    type V = InspectedView;

    open spec fn view(&self) -> InspectedView {
        InspectedView {
            release: self.release@,
            record: match self.record {
                Some(r) => Some(r@),
                None => None,
            },
        }
    }
}

/// The end of an inspection that found nothing: `held` is closed, in order,
/// and no record is made.
pub open spec fn skipped(held: Seq<u64>) -> InspectedView {
    InspectedView { release: ReleaseView { revert: false, close: held }, record: None }
}

impl Inspection {
    /// The inspection of process `pid`.
    pub fn begin(pid: u32) -> (inspection: Inspection)
        ensures
            inspection.pid == pid,
    {
        Inspection { pid }
    }

    /// The rights that the process is to be opened with: the least that
    /// let its token be queried.
    pub fn access(&self) -> (access: ProcessAccess)
        ensures
            access == ProcessAccess::Query,
    {
        ProcessAccess::Query
    }

    /// What follows the attempt to open the process: with the process open
    /// the inspection goes on; else the process is passed over, and there is
    /// nothing to close.
    pub open spec fn spec_with_process(self, opened: Result<Handle, OsError>) -> Result<
        InspectedProcess,
        InspectedView,
    > {
        match opened {
            Ok(process) => Ok(InspectedProcess { pid: self.pid, process }),
            Err(_) => Err(skipped(Seq::empty())),
        }
    }

    /// Takes the answer to the request to open the process.
    pub fn with_process(self, opened: Result<Handle, OsError>) -> (next: Result<
        InspectedProcess,
        Inspected,
    >)
        ensures
            match next {
                Ok(stage) => self.spec_with_process(opened) == Ok::<_, InspectedView>(stage),
                Err(end) => self.spec_with_process(opened) == Err::<InspectedProcess, _>(end@),
            },
    {
        match opened {
            Ok(process) => Ok(InspectedProcess { pid: self.pid, process }),
            Err(_) => {
                let end = Inspected {
                    release: Release { revert: false, close: Vec::new() },
                    record: None,
                };
                assert(raws(end.release.close@) =~= Seq::<u64>::empty());
                Err(end)
            },
        }
    }
}

impl InspectedProcess {
    /// The rights that the token is to be opened with: to read it, and no
    /// more.
    pub fn access(&self) -> (access: TokenAccess)
        ensures
            access == TokenAccess::Read,
    {
        TokenAccess::Read
    }

    /// What follows the attempt to open the token: with the token open the
    /// inspection goes on; else the process is closed and passed over.
    pub open spec fn spec_with_token(self, opened: Result<Handle, OsError>) -> Result<
        InspectedToken,
        InspectedView,
    > {
        match opened {
            Ok(token) => Ok(InspectedToken { pid: self.pid, process: self.process, token }),
            Err(_) => Err(skipped(seq![self.process.raw])),
        }
    }

    /// Takes the answer to the request to open the token.
    pub fn with_token(self, opened: Result<Handle, OsError>) -> (next: Result<
        InspectedToken,
        Inspected,
    >)
        ensures
            match next {
                Ok(stage) => self.spec_with_token(opened) == Ok::<_, InspectedView>(stage),
                Err(end) => self.spec_with_token(opened) == Err::<InspectedToken, _>(end@),
            },
    {
        match opened {
            Ok(token) => Ok(InspectedToken { pid: self.pid, process: self.process, token }),
            Err(_) => {
                let mut close: Vec<Handle> = Vec::new();
                close.push(self.process);
                let end = Inspected { release: Release { revert: false, close }, record: None };
                assert(raws(end.release.close@) =~= seq![self.process.raw]);
                Err(end)
            },
        }
    }
}

/// The owner that a record names after an attempt to resolve it: the one
/// that was found, or `Unknown` where the attempt failed.
pub open spec fn owner_or_unknown(owner: Result<OwnerView, OsError>) -> OwnerView {
    match owner {
        Ok(o) => o,
        Err(_) => OwnerView::Unknown,
    }
}

impl InspectedToken {
    /// The end of the inspection: the token is closed, then the process. A
    /// record is made where the details could be read; an owner that could
    /// not be resolved is recorded as unknown.
    pub open spec fn spec_with_facts(
        self,
        owner: Result<OwnerView, OsError>,
        details: Result<TokenDetails, OsError>,
    ) -> InspectedView {
        InspectedView {
            release: ReleaseView { revert: false, close: seq![self.token.raw, self.process.raw] },
            record: match details {
                Ok(d) => Some(
                    TokenRecordView {
                        pid: self.pid,
                        owner: owner_or_unknown(owner),
                        session: d.session,
                        kind: d.kind,
                        privileges: texts(d.privileges@),
                    },
                ),
                Err(_) => None,
            },
        }
    }

    /// Takes the answers to the two questions about the token.
    pub fn with_facts(
        self,
        owner: Result<Owner, OsError>,
        details: Result<TokenDetails, OsError>,
    ) -> (end: Inspected)
        ensures
            end@ == self.spec_with_facts(
                match owner {
                    Ok(o) => Ok(o@),
                    Err(e) => Err(e),
                },
                details,
            ),
    {
        let pid = self.pid;
        let mut close: Vec<Handle> = Vec::new();
        close.push(self.token);
        close.push(self.process);
        assert(raws(close@) =~= seq![self.token.raw, self.process.raw]);
        let record = match details {
            Ok(d) => {
                let owner = match owner {
                    Ok(o) => o,
                    Err(_) => Owner::Unknown,
                };
                Some(TokenRecord::new(pid, owner, d))
            },
            Err(_) => None,
        };
        Inspected { release: Release { revert: false, close }, record }
    }
}

/// What the operating system answers in the course of one inspection. An
/// answer to a request that was never made plays no part.
pub struct Findings {
    pub process: Result<Handle, OsError>,
    pub token: Result<Handle, OsError>,
    pub owner: Result<OwnerView, OsError>,
    pub details: Result<TokenDetails, OsError>,
}

/// One inspection from beginning to end.
pub struct InspectionRun {
    /// The handles that the inspection was given, in order.
    pub received: Seq<u64>,
    /// What is to be released, and the record.
    pub end: InspectedView,
}

/// The inspection of process `pid`, given the answers of the operating
/// system.
pub open spec fn inspect(pid: u32, findings: Findings) -> InspectionRun {
    match (Inspection { pid }).spec_with_process(findings.process) {
        Err(end) => InspectionRun { received: seq![], end },
        Ok(held) => match held.spec_with_token(findings.token) {
            Err(end) => InspectionRun { received: seq![held.process.raw], end },
            Ok(both) => InspectionRun {
                received: seq![both.process.raw, both.token.raw],
                end: both.spec_with_facts(findings.owner, findings.details),
            },
        },
    }
}

/// An inspection closes every handle it is given, exactly once, whether it
/// makes a record or not, and never touches the thread's identity.
pub proof fn lemma_inspection_closes_what_it_opens(pid: u32, findings: Findings)
    ensures
        inspect(pid, findings).received.to_multiset() == inspect(
            pid,
            findings,
        ).end.release.close.to_multiset(),
        !inspect(pid, findings).end.release.revert,
{
    broadcast use vstd::seq_lib::group_to_multiset_ensures;

    let r = inspect(pid, findings);
    if r.received.len() <= 1 {
        assert(r.end.release.close =~= r.received);
    } else {
        let process = r.received[0];
        let token = r.received[1];
        assert(r.received =~= seq![process].push(token));
        assert(r.end.release.close =~= seq![token].push(process));
        assert(seq![process] =~= Seq::<u64>::empty().push(process));
        assert(seq![token] =~= Seq::<u64>::empty().push(token));
    }
}

/// An inspection makes a record exactly where the process and its token
/// could be opened and the token's details read; the record names the
/// process that was inspected, and an owner that did not resolve is
/// unknown.
pub proof fn lemma_inspection_records(pid: u32, findings: Findings)
    ensures
        inspect(pid, findings).end.record is Some <==> findings.process is Ok && findings.token
            is Ok && findings.details is Ok,
        inspect(pid, findings).end.record matches Some(record) ==> record.pid == pid
            && record.owner == owner_or_unknown(findings.owner),
{
}

/// What inspections left, each by the view of its record.
pub open spec fn sightings(found: Seq<Option<TokenRecord>>) -> Seq<Option<TokenRecordView>> {
    found.map_values(
        |s: Option<TokenRecord>|
            match s {
                Some(r) => Some(r@),
                None => None,
            },
    )
}

/// The records of `records`, by their views.
pub open spec fn views(records: Seq<TokenRecord>) -> Seq<TokenRecordView> {
    records.map_values(|r: TokenRecord| r@)
}

/// Whether the process ids of `records` never fall from one record to the
/// next.
pub open spec fn pid_sorted(records: Seq<TokenRecordView>) -> bool {
    forall|i: int, j: int| 0 <= i <= j < records.len() ==> records[i].pid <= records[j].pid
}

/// The number of records at the head of `records` whose process id is
/// below `pid`.
pub open spec fn place(records: Seq<TokenRecordView>, pid: u32) -> nat
    decreases records.len(),
{
    if records.len() == 0 || records[0].pid >= pid {
        0
    } else {
        1 + place(records.drop_first(), pid)
    }
}

/// The records that were made, in the order of the inspections.
pub open spec fn sighted(found: Seq<Option<TokenRecordView>>) -> Seq<TokenRecordView>
    decreases found.len(),
{
    if found.len() == 0 {
        Seq::empty()
    } else {
        match found[0] {
            Some(r) => seq![r] + sighted(found.drop_first()),
            None => sighted(found.drop_first()),
        }
    }
}

/// The catalogue of what inspections left: the records that were made, by
/// ascending process id; records of one process id keep the order of their
/// inspections.
pub open spec fn catalog(found: Seq<Option<TokenRecordView>>) -> Seq<TokenRecordView>
    decreases found.len(),
{
    if found.len() == 0 {
        Seq::empty()
    } else {
        let rest = catalog(found.drop_first());
        match found[0] {
            Some(r) => rest.insert(place(rest, r.pid) as int, r),
            None => rest,
        }
    }
}

/// The place of a process id is where the lower ids end.
pub proof fn lemma_place(records: Seq<TokenRecordView>, pid: u32, n: nat)
    requires
        n <= records.len(),
        forall|k: int| 0 <= k < n ==> (#[trigger] records[k]).pid < pid,
        n == records.len() || records[n as int].pid >= pid,
    ensures
        place(records, pid) == n,
    decreases n,
{
    if n > 0 {
        let rest = records.drop_first();
        assert forall|k: int| 0 <= k < n - 1 implies (#[trigger] rest[k]).pid < pid by {
            assert(rest[k] == records[k + 1]);
        }
        lemma_place(rest, pid, (n - 1) as nat);
    }
}

/// In sorted records, the place of a process id parts the lower ids from
/// the others.
pub proof fn lemma_place_parts(records: Seq<TokenRecordView>, pid: u32)
    requires
        pid_sorted(records),
    ensures
        place(records, pid) <= records.len(),
        forall|k: int| 0 <= k < place(records, pid) ==> (#[trigger] records[k]).pid < pid,
        forall|k: int|
            place(records, pid) <= k < records.len() ==> (#[trigger] records[k]).pid >= pid,
    decreases records.len(),
{
    if records.len() > 0 && records[0].pid < pid {
        let rest = records.drop_first();
        assert forall|i: int, j: int| 0 <= i <= j < rest.len() implies rest[i].pid
            <= rest[j].pid by {
            assert(rest[i] == records[i + 1] && rest[j] == records[j + 1]);
        }
        lemma_place_parts(rest, pid);
        assert forall|k: int| 0 <= k < place(records, pid) implies (#[trigger] records[k]).pid
            < pid by {
            if k > 0 {
                assert(records[k] == rest[k - 1]);
            }
        }
        assert forall|k: int| place(records, pid) <= k < records.len() implies (
        #[trigger] records[k]).pid >= pid by {
            assert(records[k] == rest[k - 1]);
        }
    }
}

/// A catalogue is sorted by process id.
pub proof fn lemma_catalog_sorted(found: Seq<Option<TokenRecordView>>)
    ensures
        pid_sorted(catalog(found)),
    decreases found.len(),
{
    if found.len() > 0 {
        let rest = catalog(found.drop_first());
        lemma_catalog_sorted(found.drop_first());
        if let Some(r) = found[0] {
            lemma_place_parts(rest, r.pid);
            let at = place(rest, r.pid) as int;
            let out = rest.insert(at, r);
            assert forall|i: int, j: int| 0 <= i <= j < out.len() implies out[i].pid
                <= out[j].pid by {
                if i < at && j > at {
                    assert(out[i] == rest[i] && out[j] == rest[j - 1]);
                } else if i < at && j < at {
                    assert(out[i] == rest[i] && out[j] == rest[j]);
                } else if i > at {
                    assert(out[i] == rest[i - 1] && out[j] == rest[j - 1]);
                } else if i == at && j > at {
                    assert(out[j] == rest[j - 1]);
                } else if j == at && i < at {
                    assert(out[i] == rest[i]);
                }
            }
        }
    }
}

/// Whether no two records that were made name the same process.
pub open spec fn distinct_pids(found: Seq<Option<TokenRecordView>>) -> bool {
    forall|i: int, j: int|
        0 <= i < j < found.len() && found[i] is Some && found[j] is Some ==> found[i]->Some_0.pid
            != found[j]->Some_0.pid
}

/// Whether the process ids of `records` rise from each record to the next.
pub open spec fn pid_ascending(records: Seq<TokenRecordView>) -> bool {
    forall|i: int, j: int| 0 <= i < j < records.len() ==> records[i].pid < records[j].pid
}

/// Every record of a catalogue was made by one of the inspections.
pub proof fn lemma_catalog_members(found: Seq<Option<TokenRecordView>>, k: int)
    requires
        0 <= k < catalog(found).len(),
    ensures
        exists|i: int| 0 <= i < found.len() && #[trigger] found[i] == Some(catalog(found)[k]),
    decreases found.len(),
{
    let tail = found.drop_first();
    let rest = catalog(tail);
    match found[0] {
        None => {
            lemma_catalog_members(tail, k);
            let i = choose|i: int| 0 <= i < tail.len() && #[trigger] tail[i] == Some(rest[k]);
            assert(found[i + 1] == tail[i]);
        },
        Some(r) => {
            lemma_place_bound(rest, r.pid);
            let at = place(rest, r.pid) as int;
            if k == at {
                assert(found[0] == Some(catalog(found)[k]));
            } else {
                let from = if k < at {
                    k
                } else {
                    k - 1
                };
                assert(catalog(found)[k] == rest[from]);
                lemma_catalog_members(tail, from);
                let i = choose|i: int|
                    0 <= i < tail.len() && #[trigger] tail[i] == Some(rest[from]);
                assert(found[i + 1] == tail[i]);
            }
        },
    }
}

/// Where no process is met twice, the process ids of a catalogue rise from
/// each record to the next: no id is listed twice.
pub proof fn lemma_catalog_ascends(found: Seq<Option<TokenRecordView>>)
    requires
        distinct_pids(found),
    ensures
        pid_ascending(catalog(found)),
    decreases found.len(),
{
    if found.len() > 0 {
        let tail = found.drop_first();
        let rest = catalog(tail);
        assert(distinct_pids(tail)) by {
            assert forall|i: int, j: int|
                0 <= i < j < tail.len() && tail[i] is Some && tail[j] is Some implies (
            tail[i]->Some_0).pid != (tail[j]->Some_0).pid by {
                assert(tail[i] == found[i + 1] && tail[j] == found[j + 1]);
            }
        }
        lemma_catalog_ascends(tail);
        if let Some(r) = found[0] {
            lemma_catalog_sorted(tail);
            lemma_place_parts(rest, r.pid);
            let at = place(rest, r.pid) as int;
            let out = rest.insert(at, r);
            assert forall|k: int| 0 <= k < rest.len() implies (#[trigger] rest[k]).pid != r.pid by {
                lemma_catalog_members(tail, k);
                let i = choose|i: int| 0 <= i < tail.len() && #[trigger] tail[i] == Some(rest[k]);
                assert(found[i + 1] == tail[i]);
            }
            assert forall|i: int, j: int| 0 <= i < j < out.len() implies out[i].pid
                < out[j].pid by {
                if j < at {
                    assert(out[i] == rest[i] && out[j] == rest[j]);
                } else if i > at {
                    assert(out[i] == rest[i - 1] && out[j] == rest[j - 1]);
                } else if i < at && j > at {
                    assert(out[i] == rest[i] && out[j] == rest[j - 1]);
                } else if i == at {
                    assert(out[j] == rest[j - 1]);
                } else {
                    assert(out[i] == rest[i]);
                }
            }
        }
    }
}

/// A catalogue holds the records that were made, each as often as it was
/// made, and nothing else.
pub proof fn lemma_catalog_holds_the_sighted(found: Seq<Option<TokenRecordView>>)
    ensures
        catalog(found).to_multiset() == sighted(found).to_multiset(),
        catalog(found).len() == sighted(found).len(),
    decreases found.len(),
{
    broadcast use vstd::seq_lib::to_multiset_len;

    if found.len() > 0 {
        let tail = found.drop_first();
        lemma_catalog_holds_the_sighted(tail);
        if let Some(r) = found[0] {
            let rest = catalog(tail);
            lemma_place_bound(rest, r.pid);
            to_multiset_insert(rest, place(rest, r.pid) as int, r);
            assert(seq![r] + sighted(tail) == sighted(tail).insert(0, r));
            to_multiset_insert(sighted(tail), 0, r);
        }
    }
}

/// A process that could not be read is absent from the catalogue, and
/// changes nothing else of it, wherever among the others it was met.
pub proof fn lemma_inaccessible_is_absent(found: Seq<Option<TokenRecordView>>, at: int)
    requires
        0 <= at <= found.len(),
    ensures
        catalog(found.insert(at, None)) == catalog(found),
    decreases at,
{
    let with_gap = found.insert(at, None);
    if at == 0 {
        assert(with_gap.drop_first() == found);
    } else {
        assert(with_gap[0] == found[0]);
        assert(with_gap.drop_first() == found.drop_first().insert(at - 1, None));
        lemma_inaccessible_is_absent(found.drop_first(), at - 1);
    }
}

/// A place lies within the records.
pub proof fn lemma_place_bound(records: Seq<TokenRecordView>, pid: u32)
    ensures
        place(records, pid) <= records.len(),
    decreases records.len(),
{
    if records.len() > 0 && records[0].pid < pid {
        lemma_place_bound(records.drop_first(), pid);
    }
}

/// The index in `records` at which a record of process `pid` belongs.
fn position(records: &Vec<TokenRecord>, pid: u32) -> (at: usize)
    ensures
        at == place(views(records@), pid),
        at <= records.len(),
{
    let mut at: usize = 0;
    while at < records.len() && records[at].pid < pid
        invariant
            at <= records.len(),
            forall|k: int| 0 <= k < at ==> (#[trigger] views(records@)[k]).pid < pid,
        decreases records.len() - at,
    {
        at += 1;
    }
    proof {
        lemma_place(views(records@), pid, at as nat);
    }
    at
}

/// The catalogue of an enumeration. `snapshot` is what the enumeration of
/// the processes gave: an error where the processes could not be listed at
/// all, else one entry for each process, which is its record or `None`
/// where the process or its token could not be read. Only the first case
/// fails; a process that could not be read is absent from the result.
pub fn list_tokens(snapshot: Result<Vec<Option<TokenRecord>>, OsError>) -> (listing: Result<
    Vec<TokenRecord>,
    CatalogError,
>)
    ensures
        match snapshot {
            Err(os) => listing matches Err(e) && e.os == os,
            Ok(found) => listing matches Ok(records) && views(records@) == catalog(
                sightings(found@),
            ) && pid_sorted(views(records@)),
        },
{
    match snapshot {
        Err(os) => Err(CatalogError { os }),
        Ok(found) => {
            let mut found = found;
            let ghost all = sightings(found@);
            let mut records: Vec<TokenRecord> = Vec::new();
            assert(all.skip(all.len() as int) == Seq::<Option<TokenRecordView>>::empty());
            assert(views(records@) == Seq::<TokenRecordView>::empty());
            while found.len() > 0
                invariant
                    found.len() <= all.len(),
                    sightings(found@) == all.take(found.len() as int),
                    views(records@) == catalog(all.skip(found.len() as int)),
                decreases found.len(),
            {
                let ghost before = found@;
                let ghost n = found.len() - 1;
                let last = found.pop();
                assert(sightings(found@) == all.take(n)) by {
                    assert(sightings(found@) =~= sightings(before).take(n));
                }
                assert(all.skip(n).drop_first() == all.skip(n + 1));
                assert(all.skip(n)[0] == sightings(before)[n]);
                match last {
                    Some(Some(record)) => {
                        let at = position(&records, record.pid);
                        let ghost old_views = views(records@);
                        records.insert(at, record);
                        assert(views(records@) == old_views.insert(at as int, record@));
                    },
                    _ => {},
                }
            }
            assert(all.skip(0) == all);
            proof {
                lemma_catalog_sorted(all);
            }
            Ok(records)
        },
    }
}

} // verus!

//! The privileges of the caller's own token, and what enabling one of them
//! takes.

use vstd::prelude::*;
use crate::plan::Privilege;
use vstd::string::StringExecFns;
use crate::token::{because, explain, OsError};

verus! {

impl Privilege {
    /// The name by which the operating system knows the privilege.
    pub open spec fn spec_name(self) -> Seq<char> {
        match self {
            Privilege::Debug => "SeDebugPrivilege"@,
            Privilege::Impersonate => "SeImpersonatePrivilege"@,
        }
    }

    /// The name by which the operating system knows the privilege.
    pub fn name(&self) -> (text: &'static str)
        ensures
            text@ == self.spec_name(),
    {
        match self {
            Privilege::Debug => "SeDebugPrivilege",
            Privilege::Impersonate => "SeImpersonatePrivilege",
        }
    }
}

/// Why a privilege was not enabled.
#[derive(Clone, Copy, Debug, PartialEq, Eq, Structural)]
pub enum PrivError {
    /// The operating system knows no privilege of that name.
    UnknownPrivilege { os: OsError },
    /// The token does not hold the privilege (`refusal` is `None`), or the
    /// operating system refused to adjust the token.
    PermissionDenied { refusal: Option<OsError> },
}

impl PrivError {
    /// The error as a message.
    pub open spec fn spec_message(self) -> Seq<char> {
        match self {
            PrivError::UnknownPrivilege { os } => because("unknown privilege"@, os),
            PrivError::PermissionDenied { refusal: Some(os) } => because("permission denied"@, os),
            PrivError::PermissionDenied { refusal: None } => "permission denied"@,
        }
    }

    /// The error as a message.
    pub fn message(&self) -> (message: String)
        ensures
            message@ == self.spec_message(),
    {
        match self {
            PrivError::UnknownPrivilege { os } => explain("unknown privilege", *os),
            PrivError::PermissionDenied { refusal: Some(os) } => explain("permission denied", *os),
            PrivError::PermissionDenied { refusal: None } => String::from_str("permission denied"),
        }
    }
}

/// What is to be done to the token so that a privilege is enabled.
#[derive(Clone, Copy, Debug, PartialEq, Eq, Structural)]
pub enum Adjustment {
    /// The privilege is enabled already.
    Nothing,
    /// Enable the held privilege with this identifier.
    Enable { id: u64 },
}

/// One privilege that a token holds.
#[derive(Clone, Copy, Debug, PartialEq, Eq, Structural)]
pub struct Grant {
    pub id: u64,
    pub enabled: bool,
}

/// The privileges that the caller's own token holds, each enabled or not.
/// No privilege is held twice.
#[derive(Debug, PartialEq, Eq)]
pub struct TokenPrivileges {
    grants: Vec<Grant>,
}

/// Whether no identifier occurs twice among `grants`.
pub open spec fn distinct(grants: Seq<Grant>) -> bool {
    forall|i: int, j: int| 0 <= i < j < grants.len() ==> grants[i].id != grants[j].id
}

/// The privileges of `grants`: each identifier with whether it is enabled.
pub open spec fn table(grants: Seq<Grant>) -> Map<u64, bool>
    decreases grants.len(),
{
    if grants.len() == 0 {
        Map::empty()
    } else {
        table(grants.drop_last()).insert(grants.last().id, grants.last().enabled)
    }
}

/// The table of distinct grants holds each grant, and nothing else.
pub proof fn lemma_table(grants: Seq<Grant>)
    requires
        distinct(grants),
    ensures
        forall|i: int|
            0 <= i < grants.len() ==> table(grants).contains_key(#[trigger] grants[i].id) && table(
                grants,
            )[grants[i].id] == grants[i].enabled,
        forall|id: u64| #[trigger]
            table(grants).contains_key(id) ==> exists|i: int|
                0 <= i < grants.len() && (#[trigger] grants[i]).id == id,
    decreases grants.len(),
{
    if grants.len() > 0 {
        let front = grants.drop_last();
        lemma_table(front);
        assert forall|i: int| 0 <= i < grants.len() implies table(grants).contains_key(
            #[trigger] grants[i].id,
        ) && table(grants)[grants[i].id] == grants[i].enabled by {
            if i < grants.len() - 1 {
                assert(front[i] == grants[i]);
            }
        }
        assert forall|id: u64| #[trigger] table(grants).contains_key(id) implies exists|i: int|
            0 <= i < grants.len() && (#[trigger] grants[i]).id == id by {
            if id == grants.last().id {
                assert(grants[grants.len() - 1].id == id);
            } else {
                assert(table(front).contains_key(id));
                let i = choose|i: int| 0 <= i < front.len() && (#[trigger] front[i]).id == id;
                assert(grants[i] == front[i]);
            }
        }
    }
}

/// What enabling a privilege makes of a table, given what the operating
/// system answered when asked for the privilege's identifier: an unknown
/// name and a privilege that is not held leave the table as it is; a held
/// privilege is enabled from then on.
pub open spec fn enabled(held: Map<u64, bool>, lookup: Result<u64, OsError>) -> Map<u64, bool> {
    match lookup {
        Ok(id) => if held.contains_key(id) {
            held.insert(id, true)
        } else {
            held
        },
        Err(_) => held,
    }
}

/// What enabling a privilege answers: an unknown name fails with
/// `UnknownPrivilege` and the error that the lookup gave; a privilege that
/// the token does not hold fails with `PermissionDenied`; a held privilege
/// succeeds, with nothing to do where it is enabled already.
pub open spec fn enabling(held: Map<u64, bool>, lookup: Result<u64, OsError>) -> Result<
    Adjustment,
    PrivError,
> {
    match lookup {
        Err(os) => Err(PrivError::UnknownPrivilege { os }),
        Ok(id) => if !held.contains_key(id) {
            Err(PrivError::PermissionDenied { refusal: None })
        } else if held[id] {
            Ok(Adjustment::Nothing)
        } else {
            Ok(Adjustment::Enable { id })
        },
    }
}

fn copied(grants: &Vec<Grant>) -> (copy: Vec<Grant>)
    ensures
        copy@ == grants@,
{
    let mut copy: Vec<Grant> = Vec::new();
    let mut i: usize = 0;
    while i < grants.len()
        invariant
            i <= grants.len(),
            copy@ == grants@.take(i as int),
        decreases grants.len() - i,
    {
        copy.push(grants[i]);
        assert(grants@.take(i + 1) == grants@.take(i as int).push(grants@[i as int]));
        i += 1;
    }
    assert(grants@.take(i as int) == grants@);
    copy
}

impl View for TokenPrivileges {
    type V = Map<u64, bool>;

    closed spec fn view(&self) -> Map<u64, bool> {
        table(self.grants@)
    }
}

impl TokenPrivileges {
    #[verifier::type_invariant]
    spec fn well_formed(self) -> bool {
        distinct(self.grants@)
    }

    /// The privileges of a token that holds none.
    pub fn new() -> (held: TokenPrivileges)
        ensures
            held@ == Map::<u64, bool>::empty(),
    {
        TokenPrivileges { grants: Vec::new() }
    }

    fn find(&self, id: u64) -> (at: Option<usize>)
        ensures
            match at {
                Some(i) => i < self.grants.len() && self.grants[i as int].id == id,
                None => forall|i: int| 0 <= i < self.grants.len() ==> self.grants[i].id != id,
            },
    {
        let mut i: usize = 0;
        while i < self.grants.len()
            invariant
                i <= self.grants.len(),
                forall|k: int| 0 <= k < i ==> self.grants[k].id != id,
            decreases self.grants.len() - i,
        {
            if self.grants[i].id == id {
                return Some(i);
            }
            i += 1;
        }
        None
    }

    /// Whether the token holds the privilege `id`, and if so, whether it is
    /// enabled.
    pub fn state(&self, id: u64) -> (state: Option<bool>)
        ensures
            state == if self@.contains_key(id) {
                Some(self@[id])
            } else {
                None
            },
    {
        proof {
            use_type_invariant(self);
            lemma_table(self.grants@);
        }
        match self.find(id) {
            Some(i) => Some(self.grants[i].enabled),
            None => None,
        }
    }

    /// Notes that the token holds the privilege `id`, enabled or not.
    /// Answers `false`, and changes nothing, where the privilege is noted
    /// already.
    pub fn grant(&mut self, id: u64, enabled: bool) -> (fresh: bool)
        ensures
            fresh == !old(self)@.contains_key(id),
            final(self)@ == if fresh {
                old(self)@.insert(id, enabled)
            } else {
                old(self)@
            },
    {
        proof {
            use_type_invariant(&*self);
            lemma_table(self.grants@);
        }
        match self.find(id) {
            Some(_) => false,
            None => {
                let mut grants = copied(&self.grants);
                grants.push(Grant { id, enabled });
                assert(grants@.drop_last() == self.grants@);
                self.grants = grants;
                true
            },
        }
    }

    /// Enables a privilege of the token. `lookup` is what the operating
    /// system answered when asked for the identifier of the privilege's
    /// name.
    pub fn enable(&mut self, lookup: Result<u64, OsError>) -> (outcome: Result<
        Adjustment,
        PrivError,
    >)
        ensures
            outcome == enabling(old(self)@, lookup),
            final(self)@ == enabled(old(self)@, lookup),
    {
        proof {
            use_type_invariant(&*self);
            lemma_table(self.grants@);
        }
        match lookup {
            Err(os) => Err(PrivError::UnknownPrivilege { os }),
            Ok(id) => match self.find(id) {
                None => Err(PrivError::PermissionDenied { refusal: None }),
                Some(i) => {
                    if self.grants[i].enabled {
                        assert(self@ =~= self@.insert(id, true));
                        Ok(Adjustment::Nothing)
                    } else {
                        let mut grants = copied(&self.grants);
                        grants.set(i, Grant { id, enabled: true });
                        proof {
                            lemma_table_update(self.grants@, i as int);
                        }
                        self.grants = grants;
                        Ok(Adjustment::Enable { id })
                    }
                },
            },
        }
    }
}

/// Enabling one grant of a table enables its privilege, and touches no
/// other.
pub proof fn lemma_table_update(grants: Seq<Grant>, i: int)
    requires
        distinct(grants),
        0 <= i < grants.len(),
    ensures
        distinct(grants.update(i, Grant { id: grants[i].id, enabled: true })),
        table(grants.update(i, Grant { id: grants[i].id, enabled: true })) == table(grants).insert(
            grants[i].id,
            true,
        ),
{
    let after = grants.update(i, Grant { id: grants[i].id, enabled: true });
    assert(distinct(after));
    lemma_table(grants);
    lemma_table(after);
    let id = grants[i].id;
    assert forall|k: u64| table(after).contains_key(k) <==> table(grants).insert(
        id,
        true,
    ).contains_key(k) by {
        if table(after).contains_key(k) {
            let j = choose|j: int| 0 <= j < after.len() && (#[trigger] after[j]).id == k;
            assert(grants[j].id == k);
        }
        if table(grants).contains_key(k) {
            let j = choose|j: int| 0 <= j < grants.len() && (#[trigger] grants[j]).id == k;
            assert(after[j].id == k);
        }
        if k == id {
            assert(after[i].id == k);
        }
    }
    assert forall|k: u64| table(after).contains_key(k) implies table(after)[k] == table(
        grants,
    ).insert(id, true)[k] by {
        let j = choose|j: int| 0 <= j < after.len() && (#[trigger] after[j]).id == k;
        assert(table(after)[after[j].id] == after[j].enabled);
        assert(table(grants)[grants[j].id] == grants[j].enabled);
    }
    assert(table(after) =~= table(grants).insert(id, true));
}

/// The table that a list of grants makes: a privilege that is listed twice
/// is held as it is listed first.
pub open spec fn noted(grants: Seq<Grant>) -> Map<u64, bool>
    decreases grants.len(),
{
    if grants.len() == 0 {
        Map::empty()
    } else {
        let before = noted(grants.drop_last());
        if before.contains_key(grants.last().id) {
            before
        } else {
            before.insert(grants.last().id, grants.last().enabled)
        }
    }
}

/// What enabling a privilege on the caller's own token answers, given what
/// the operating system answered when asked for the identifier of the
/// privilege's name, and when asked for the privileges that the token
/// holds. An unknown name fails with `UnknownPrivilege`, whatever else
/// failed; a token whose privileges cannot be read denies every privilege.
pub open spec fn requested(
    lookup: Result<u64, OsError>,
    held: Result<Seq<Grant>, OsError>,
) -> Result<Adjustment, PrivError> {
    match (lookup, held) {
        (Err(os), _) => Err(PrivError::UnknownPrivilege { os }),
        (Ok(_), Err(os)) => Err(PrivError::PermissionDenied { refusal: Some(os) }),
        (Ok(_), Ok(grants)) => enabling(noted(grants), lookup),
    }
}

/// Decides what enabling a privilege on the caller's own token takes.
/// `lookup` is what the operating system answered when asked for the
/// identifier of the privilege's name, `held` what it answered when asked
/// for the privileges of the token.
pub fn enable(lookup: Result<u64, OsError>, held: Result<Vec<Grant>, OsError>) -> (outcome: Result<
    Adjustment,
    PrivError,
>)
    ensures
        outcome == requested(
            lookup,
            match held {
                Ok(grants) => Ok(grants@),
                Err(os) => Err(os),
            },
        ),
{
    match held {
        Err(os) => match lookup {
            Err(unknown) => Err(PrivError::UnknownPrivilege { os: unknown }),
            Ok(_) => Err(PrivError::PermissionDenied { refusal: Some(os) }),
        },
        Ok(grants) => {
            let mut table = TokenPrivileges::new();
            let mut i: usize = 0;
            assert(grants@.take(0) == Seq::<Grant>::empty());
            while i < grants.len()
                invariant
                    i <= grants.len(),
                    table@ == noted(grants@.take(i as int)),
                decreases grants.len() - i,
            {
                assert(grants@.take(i + 1).drop_last() == grants@.take(i as int));
                table.grant(grants[i].id, grants[i].enabled);
                i += 1;
            }
            assert(grants@.take(i as int) == grants@);
            table.enable(lookup)
        },
    }
}

/// What the attempt to adjust the token comes to: a refusal of the
/// operating system is a denial.
pub fn confirm(adjusted: Result<(), OsError>) -> (outcome: Result<(), PrivError>)
    ensures
        outcome == match adjusted {
            Ok(_) => Ok::<(), PrivError>(()),
            Err(os) => Err(PrivError::PermissionDenied { refusal: Some(os) }),
        },
{
    match adjusted {
        Ok(_) => Ok(()),
        Err(os) => Err(PrivError::PermissionDenied { refusal: Some(os) }),
    }
}

/// Enabling a privilege twice in a row: where the first call succeeds, the
/// second succeeds too, has nothing to do, and leaves the table as the
/// first call left it.
pub proof fn lemma_enable_twice(held: Map<u64, bool>, lookup: Result<u64, OsError>)
    requires
        enabling(held, lookup) is Ok,
    ensures
        enabling(enabled(held, lookup), lookup) == Ok::<Adjustment, PrivError>(Adjustment::Nothing),
        enabled(enabled(held, lookup), lookup) == enabled(held, lookup),
{
    let once = enabled(held, lookup);
    assert(enabled(once, lookup) =~= once);
}

/// Enabling a privilege that the token was never issued fails with
/// `PermissionDenied` and grants nothing: the table is as it was.
pub proof fn lemma_enable_not_issued(held: Map<u64, bool>, id: u64)
    requires
        !held.contains_key(id),
    ensures
        enabling(held, Ok(id)) == Err::<Adjustment, PrivError>(
            PrivError::PermissionDenied { refusal: None },
        ),
        enabled(held, Ok(id)) == held,
{
}

/// Enabling a name that the operating system does not know fails with
/// `UnknownPrivilege`, whatever the token holds, and changes nothing.
pub proof fn lemma_enable_unknown(held: Map<u64, bool>, os: OsError)
    ensures
        enabling(held, Err(os)) == Err::<Adjustment, PrivError>(PrivError::UnknownPrivilege { os }),
        enabled(held, Err(os)) == held,
{
}

/// A request to enable a name that the operating system does not know
/// fails with `UnknownPrivilege`, whether or not the token's privileges
/// could be read.
pub proof fn lemma_request_unknown(held: Result<Seq<Grant>, OsError>, os: OsError)
    ensures
        requested(Err(os), held) == Err::<Adjustment, PrivError>(
            PrivError::UnknownPrivilege { os },
        ),
{
}

} // verus!

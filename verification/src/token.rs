//! What the core knows of kernel objects: handles, the errors of the
//! operating system, and the record of one process's token.

use vstd::prelude::*;
use vstd::string::StringExecFns;
use crate::number::{numeral, render_number};
use crate::text::texts;

verus! {

/// A handle to an open kernel object, a process or a token. It cannot be
/// copied: whoever holds it owes the object one close.
#[derive(Debug, PartialEq, Eq)]
pub struct Handle {
    pub raw: u64,
}

/// The handles of `held` as plain numbers.
pub open spec fn raws(held: Seq<Handle>) -> Seq<u64> {
    held.map_values(|h: Handle| h.raw)
}

/// The rights that a process is opened with.
#[derive(Clone, Copy, Debug, PartialEq, Eq, Structural)]
pub enum ProcessAccess {
    /// Enough to query the token of the process, and no more.
    Query,
    /// Enough to query the token of the process and to duplicate it.
    QueryAndDuplicate,
}

/// The rights that the primary token of a process is opened with.
#[derive(Clone, Copy, Debug, PartialEq, Eq, Structural)]
pub enum TokenAccess {
    /// Enough to read the token, and no more.
    Read,
    /// Enough to duplicate the token.
    Duplicate,
}

/// An error of the operating system, by its code.
#[derive(Clone, Copy, Debug, PartialEq, Eq, Structural)]
pub struct OsError {
    pub code: u32,
}

impl OsError {
    /// The error as text: the words `os error` and the code.
    pub open spec fn spec_text(self) -> Seq<char> {
        "os error "@ + numeral(self.code as nat)
    }

    /// The error as text: the words `os error` and the code.
    pub fn text(&self) -> (text: String)
        ensures
            text@ == self.spec_text(),
    {
        let mut text = String::from_str("os error ");
        text.append(render_number(self.code).as_str());
        text
    }
}

/// The message of a failure: what failed, then the error of the operating
/// system in round brackets.
pub open spec fn because(what: Seq<char>, os: OsError) -> Seq<char> {
    what + " ("@ + os.spec_text() + ")"@
}

/// The message of a failure: what failed, then the error of the operating
/// system in round brackets.
pub fn explain(what: &str, os: OsError) -> (message: String)
    ensures
        message@ == because(what@, os),
{
    let mut message = String::from_str(what);
    message.append(" (");
    message.append(os.text().as_str());
    message.append(")");
    message
}

/// What the holder of some handles must do to let go of them: first give
/// the thread its own identity back, where `revert` is set, then close each
/// handle of `close`, in order.
#[derive(Debug, PartialEq, Eq)]
pub struct Release {
    pub revert: bool,
    pub close: Vec<Handle>,
}

/// A release, with its handles as plain numbers.
pub struct ReleaseView {
    pub revert: bool,
    pub close: Seq<u64>,
}

impl View for Release {
    type V = ReleaseView;

    open spec fn view(&self) -> ReleaseView {
        ReleaseView { revert: self.revert, close: raws(self.close@) }
    }
}

/// The type of a token.
#[derive(Clone, Copy, Debug, PartialEq, Eq, Structural)]
pub enum TokenKind {
    /// The token a process was created with.
    Primary,
    /// A token that can be bound to a thread.
    Impersonation,
}

impl TokenKind {
    /// The name of the type: `primary` or `impersonation`.
    pub open spec fn spec_name(self) -> Seq<char> {
        match self {
            TokenKind::Primary => "primary"@,
            TokenKind::Impersonation => "impersonation"@,
        }
    }

    /// The name of the type: `primary` or `impersonation`.
    pub fn name(&self) -> (text: &'static str)
        ensures
            text@ == self.spec_name(),
            text@ == "primary"@ || text@ == "impersonation"@,
    {
        match self {
            TokenKind::Primary => "primary",
            TokenKind::Impersonation => "impersonation",
        }
    }
}

/// The account that owns a token.
#[derive(Clone, Debug, PartialEq, Eq)]
pub enum Owner {
    Known { domain: String, user: String },
    /// The owner's identifier resolves to no name.
    Unknown,
}

/// An owner, with its names as sequences of characters.
pub enum OwnerView {
    Known { domain: Seq<char>, user: Seq<char> },
    Unknown,
}

impl View for Owner {
    type V = OwnerView;

    open spec fn view(&self) -> OwnerView {
        match self {
            Owner::Known { domain, user } => OwnerView::Known { domain: domain@, user: user@ },
            Owner::Unknown => OwnerView::Unknown,
        }
    }
}

impl OwnerView {
    /// The owner as text: the domain, a backslash and the user name, or the
    /// word `unknown`.
    pub open spec fn text(self) -> Seq<char> {
        match self {
            OwnerView::Known { domain, user } => domain + seq!['\\'] + user,
            OwnerView::Unknown => "unknown"@,
        }
    }
}

impl Owner {
    /// The owner as text: the domain, a backslash and the user name, or the
    /// word `unknown`.
    pub fn text(&self) -> (text: String)
        ensures
            text@ == self@.text(),
    {
        match self {
            Owner::Known { domain, user } => {
                let mut text = domain.clone();
                text.push('\\');
                text.append(user.as_str());
                text
            },
            Owner::Unknown => String::from_str("unknown"),
        }
    }
}

/// What the operating system tells of an open token, beside its owner.
#[derive(Clone, Debug, PartialEq, Eq)]
pub struct TokenDetails {
    pub session: u32,
    pub kind: TokenKind,
    /// The names of the privileges that are enabled on the token.
    pub privileges: Vec<String>,
}

/// A snapshot of the token of one process. It owns no handle: the token was
/// closed when the snapshot was taken.
#[derive(Clone, Debug, PartialEq, Eq)]
pub struct TokenRecord {
    pub pid: u32,
    pub owner: Owner,
    pub session: u32,
    pub kind: TokenKind,
    /// The names of the privileges that are enabled on the token.
    pub privileges: Vec<String>,
}

/// A record, with its texts as sequences of characters.
pub struct TokenRecordView {
    pub pid: u32,
    pub owner: OwnerView,
    pub session: u32,
    pub kind: TokenKind,
    pub privileges: Seq<Seq<char>>,
}

impl View for TokenRecord {
    type V = TokenRecordView;

    open spec fn view(&self) -> TokenRecordView {
        TokenRecordView {
            pid: self.pid,
            owner: self.owner@,
            session: self.session,
            kind: self.kind,
            privileges: texts(self.privileges@),
        }
    }
}

/// Every record names a process id that is not negative, and a token type
/// that is `primary` or `impersonation`.
pub proof fn lemma_record_is_typed(record: TokenRecordView)
    ensures
        record.pid >= 0,
        record.kind.spec_name() == "primary"@ || record.kind.spec_name() == "impersonation"@,
{
}

/// The names of `names`, each parted from the next by a comma.
pub open spec fn listed(names: Seq<Seq<char>>) -> Seq<char>
    decreases names.len(),
{
    if names.len() == 0 {
        Seq::empty()
    } else if names.len() == 1 {
        names[0]
    } else {
        listed(names.drop_last()) + seq![','] + names.last()
    }
}

impl TokenRecordView {
    /// The record as one line: process id, owner, session id, token type
    /// and enabled privileges, each parted from the next by a tab.
    pub open spec fn line(self) -> Seq<char> {
        numeral(self.pid as nat) + seq!['\t'] + self.owner.text() + seq!['\t'] + numeral(
            self.session as nat,
        ) + seq!['\t'] + self.kind.spec_name() + seq!['\t'] + listed(self.privileges)
    }
}

impl TokenRecord {
    /// The record of process `pid`, whose token has the given owner and
    /// details.
    pub fn new(pid: u32, owner: Owner, details: TokenDetails) -> (record: TokenRecord)
        ensures
            record@ == (TokenRecordView {
                pid,
                owner: owner@,
                session: details.session,
                kind: details.kind,
                privileges: texts(details.privileges@),
            }),
    {
        TokenRecord {
            pid,
            owner,
            session: details.session,
            kind: details.kind,
            privileges: details.privileges,
        }
    }

    /// The record as one line of text.
    pub fn line(&self) -> (line: String)
        ensures
            line@ == self@.line(),
    {
        let mut line = render_number(self.pid);
        line.push('\t');
        line.append(self.owner.text().as_str());
        line.push('\t');
        line.append(render_number(self.session).as_str());
        line.push('\t');
        line.append(self.kind.name());
        line.push('\t');
        let ghost head = line@;
        let ghost names = texts(self.privileges@);
        let mut i: usize = 0;
        assert(names.take(0) == Seq::<Seq<char>>::empty());
        while i < self.privileges.len()
            invariant
                i <= self.privileges.len(),
                names == texts(self.privileges@),
                line@ == head + listed(names.take(i as int)),
            decreases self.privileges.len() - i,
        {
            let ghost longer = names.take(i + 1);
            assert(longer.drop_last() == names.take(i as int));
            assert(longer.last() == self.privileges@[i as int]@);
            if i > 0 {
                line.push(',');
            }
            line.append(self.privileges[i].as_str());
            i += 1;
        }
        assert(names.take(i as int) == names);
        line
    }
}

} // verus!

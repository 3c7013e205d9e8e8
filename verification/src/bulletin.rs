use vstd::prelude::*;

use crate::location::Location;
use crate::rules::Functionality;

verus! {

/// Why a bulletin was raised.
#[derive(Debug)]
pub enum BulletinReason {
    SuspiciousImport,
    SuspiciousFunction,
    ImportInsideFunction,
    DynamicImport,
    Canary(String),
}

/// The abstract value of a [`BulletinReason`].
pub enum BulletinReasonV {
    SuspiciousImport,
    SuspiciousFunction,
    ImportInsideFunction,
    DynamicImport,
    Canary(Seq<char>),
}

/// The abstract value of one reason.
pub open spec fn reason_view(r: BulletinReason) -> BulletinReasonV {
    match r {
        BulletinReason::SuspiciousImport => BulletinReasonV::SuspiciousImport,
        BulletinReason::SuspiciousFunction => BulletinReasonV::SuspiciousFunction,
        BulletinReason::ImportInsideFunction => BulletinReasonV::ImportInsideFunction,
        BulletinReason::DynamicImport => BulletinReasonV::DynamicImport,
        BulletinReason::Canary(m) => BulletinReasonV::Canary(m@),
    }
}

/// One diagnostic: the identifier that triggered it, the position of the
/// triggering record, the reason, the rule's category, and the rule set's
/// visibility threshold in millionths.
#[derive(Debug)]
pub struct Bulletin {
    pub identifier: String,
    pub line: usize,
    pub col: usize,
    pub reason: BulletinReason,
    pub functionality: Option<Functionality>,
    pub threshold: u64,
}

/// The abstract value of a [`Bulletin`].
#[verifier::ext_equal]
pub struct BulletinV {
    pub identifier: Seq<char>,
    pub line: usize,
    pub col: usize,
    pub reason: BulletinReasonV,
    pub functionality: Option<Functionality>,
    pub threshold: u64,
}

/// The abstract value of one bulletin.
pub open spec fn bulletin_view(b: Bulletin) -> BulletinV {
    BulletinV {
        identifier: b.identifier@,
        line: b.line,
        col: b.col,
        reason: reason_view(b.reason),
        functionality: b.functionality,
        threshold: b.threshold,
    }
}

/// The abstract values of a list of bulletins.
pub open spec fn bulletins_view(s: Seq<Bulletin>) -> Seq<BulletinV> {
    Seq::new(s.len(), |i: int| bulletin_view(s[i]))
}

pub type Bulletins = Vec<Bulletin>;

/// The human-readable sentence for a reason.
pub open spec fn reason_message_spec(r: BulletinReasonV, identifier: Seq<char>) -> Seq<char> {
    match r {
        BulletinReasonV::SuspiciousImport => "The import '"@ + identifier
            + "' is often used in malicious activity"@,
        BulletinReasonV::SuspiciousFunction => "The function '"@ + identifier
            + "' is often used in malicious activity"@,
        BulletinReasonV::ImportInsideFunction =>
            "Importing inside classes and functions might be done to hide functionality"@,
        BulletinReasonV::DynamicImport =>
            "Functionality was dynamically imported (at runtime). This can be used to obfuscate malicious activity."@,
        BulletinReasonV::Canary(m) => "Canary triggered: "@ + m,
    }
}

impl Bulletin {
    pub fn new(
        identifier: String,
        reason: BulletinReason,
        location: Location,
        functionality: Option<Functionality>,
        threshold: u64,
    ) -> (r: Self)
        ensures
            bulletin_view(r) == (BulletinV {
                identifier: identifier@,
                line: location.row,
                col: location.column,
                reason: reason_view(reason),
                functionality,
                threshold,
            }),
    {
        let r = Self {
            identifier,
            reason,
            col: location.column,
            line: location.row,
            functionality,
            threshold,
        };
        proof {
            assert(bulletin_view(r) =~= (BulletinV {
                identifier: r.identifier@,
                line: location.row,
                col: location.column,
                reason: reason_view(r.reason),
                functionality,
                threshold,
            }));
        }
        r
    }

    /// The 1-based row of the record that raised this bulletin.
    pub fn line(&self) -> (r: usize)
        ensures
            r == self.line,
    {
        self.line
    }

    /// The column of the record that raised this bulletin.
    pub fn col(&self) -> (r: usize)
        ensures
            r == self.col,
    {
        self.col
    }

    /// The human-readable sentence for this bulletin.
    pub fn reason(&self) -> (r: String)
        ensures
            r@ == reason_message_spec(reason_view(self.reason), self.identifier@),
    {
        match &self.reason {
            BulletinReason::SuspiciousImport => {
                let mut s = String::from_str("The import '");
                s.append(self.identifier.as_str());
                s.append("' is often used in malicious activity");
                s
            },
            BulletinReason::SuspiciousFunction => {
                let mut s = String::from_str("The function '");
                s.append(self.identifier.as_str());
                s.append("' is often used in malicious activity");
                s
            },
            BulletinReason::ImportInsideFunction => {
                String::from_str(
                    "Importing inside classes and functions might be done to hide functionality",
                )
            },
            BulletinReason::DynamicImport => {
                String::from_str(
                    "Functionality was dynamically imported (at runtime). This can be used to obfuscate malicious activity.",
                )
            },
            BulletinReason::Canary(message) => {
                let mut s = String::from_str("Canary triggered: ");
                s.append(message.as_str());
                s
            },
        }
    }
}

} // verus!

//! The auto-accept policy: whether an incoming offer is accepted unasked.
//!
//! An offer is allowed when the rule set is enabled, a default save directory
//! is configured, and the sender is listed by nick or found by a mask. A list
//! that is absent matches nobody: enabling the rule set alone accepts no one.

use vstd::prelude::*;
use crate::config::AutoAccept;
use crate::pattern::{pattern_compiles, pattern_found, search};

verus! {

/// What the policy says of an offer.
#[derive(Clone, Copy, Debug, PartialEq, Eq, Structural)]
pub enum Decision {
    Allow,
    Deny,
}

/// How nicks are compared.
#[derive(Clone, Copy, Debug, PartialEq, Eq, Structural)]
pub enum Collation {
    /// Character by character.
    CaseSensitive,
    /// `A` to `Z` count as `a` to `z`.
    Ascii,
    /// As `Ascii`, and `[`, `\`, `]`, `^` count as `{`, `|`, `}`, `~`.
    Rfc1459,
}

impl Collation {
    /// The character that `c` counts as.
    pub open spec fn fold(self, c: char) -> char {
        let upper = match self {
            Collation::CaseSensitive => false,
            Collation::Ascii => 'A' <= c && c <= 'Z',
            Collation::Rfc1459 => 'A' <= c && c <= '^',
        };
        if upper {
            ((c as u32) + 32) as char
        } else {
            c
        }
    }

    /// Two names are equal when they are as long as each other and agree,
    /// place by place, in what their characters count as.
    pub open spec fn equal(self, a: Seq<char>, b: Seq<char>) -> bool {
        &&& a.len() == b.len()
        &&& forall|i: int| 0 <= i < a.len() ==> self.fold(a[i]) == self.fold(b[i])
    }

    /// Folds one character.
    pub fn folded(&self, c: char) -> (r: char)
        ensures
            r == self.fold(c),
    {
        let upper = match self {
            Collation::CaseSensitive => false,
            Collation::Ascii => 'A' <= c && c <= 'Z',
            Collation::Rfc1459 => 'A' <= c && c <= '^',
        };
        if upper {
            (((c as u32) + 32) as u8) as char
        } else {
            c
        }
    }

    /// Compares two names.
    pub fn matches(&self, a: &str, b: &str) -> (same: bool)
        ensures
            same == self.equal(a@, b@),
    {
        let n = a.unicode_len();
        if n != b.unicode_len() {
            return false;
        }
        let mut i: usize = 0;
        while i < n
            invariant
                i <= n,
                n == a@.len(),
                n == b@.len(),
                forall|k: int| 0 <= k < i ==> self.fold(a@[k]) == self.fold(b@[k]),
            decreases n - i,
        {
            if self.folded(a.get_char(i)) != self.folded(b.get_char(i)) {
                return false;
            }
            i = i + 1;
        }
        true
    }
}

/// Whether `nick` equals an entry of the list. An absent list holds nobody.
pub open spec fn nick_listed(
    nicks: Option<Vec<String>>,
    collation: Collation,
    nick: Seq<char>,
) -> bool {
    match nicks {
        Some(list) => exists|i: int|
            #![trigger list@[i]]
            0 <= i < list@.len() && collation.equal(list@[i]@, nick),
        None => false,
    }
}

/// Whether `mask` finds a match in `hostmask`: it is a regular expression,
/// and a search with it finds a match somewhere in `hostmask`. A mask that
/// is no regular expression finds nothing.
pub open spec fn mask_finds(mask: Seq<char>, hostmask: Seq<char>) -> bool {
    pattern_compiles(mask) && pattern_found(mask, hostmask)
}

/// What a search with a mask comes to, from what the search gave: the
/// answer of the search, and no match where the mask did not compile.
pub fn found(outcome: Option<bool>) -> (hit: bool)
    ensures
        hit == (outcome == Some(true)),
{
    match outcome {
        Some(hit) => hit,
        None => false,
    }
}

/// Whether a mask of the list finds a match in `hostmask`. An absent list
/// finds nothing.
pub open spec fn mask_listed(masks: Option<Vec<String>>, hostmask: Seq<char>) -> bool {
    match masks {
        Some(list) => exists|i: int|
            #![trigger list@[i]]
            0 <= i < list@.len() && mask_finds(list@[i]@, hostmask),
        None => false,
    }
}

/// The policy over its four findings.
pub open spec fn allowed(enabled: bool, has_directory: bool, by_nick: bool, by_mask: bool) -> bool {
    enabled && has_directory && (by_nick || by_mask)
}

/// Whether `rules` allow an offer from `nick`, whose full identity is
/// `hostmask`.
pub open spec fn allows(
    rules: AutoAccept,
    has_directory: bool,
    collation: Collation,
    nick: Seq<char>,
    hostmask: Seq<char>,
) -> bool {
    allowed(
        rules.enabled,
        has_directory,
        nick_listed(rules.nicks, collation, nick),
        mask_listed(rules.masks, hostmask),
    )
}

/// Decides from the four findings: the rule set is enabled, a default save
/// directory is configured, the nick is listed, a mask found the hostmask.
pub fn decide(enabled: bool, has_directory: bool, by_nick: bool, by_mask: bool) -> (d: Decision)
    ensures
        d == (if allowed(enabled, has_directory, by_nick, by_mask) {
            Decision::Allow
        } else {
            Decision::Deny
        }),
{
    if enabled && has_directory && (by_nick || by_mask) {
        Decision::Allow
    } else {
        Decision::Deny
    }
}

/// Looks `nick` up in the list of nicks.
pub fn lists_nick(nicks: &Option<Vec<String>>, collation: Collation, nick: &str) -> (listed: bool)
    ensures
        listed == nick_listed(*nicks, collation, nick@),
{
    match nicks {
        None => false,
        Some(list) => {
            let mut i: usize = 0;
            while i < list.len()
                invariant
                    i <= list.len(),
                    *nicks == Some(*list),
                    forall|k: int| 0 <= k < i ==> !collation.equal(list@[k]@, nick@),
                decreases list.len() - i,
            {
                if collation.matches(list[i].as_str(), nick) {
                    assert(nicks->Some_0@[i as int] == list@[i as int]);
                    return true;
                }
                i = i + 1;
            }
            false
        },
    }
}

/// Tries each mask on `hostmask`.
pub fn lists_mask(masks: &Option<Vec<String>>, hostmask: &str) -> (listed: bool)
    ensures
        listed == mask_listed(*masks, hostmask@),
{
    match masks {
        None => false,
        Some(list) => {
            let mut i: usize = 0;
            while i < list.len()
                invariant
                    i <= list.len(),
                    *masks == Some(*list),
                    forall|k: int| 0 <= k < i ==> !mask_finds(list@[k]@, hostmask@),
                decreases list.len() - i,
            {
                if found(search(list[i].as_str(), hostmask)) {
                    assert(masks->Some_0@[i as int] == list@[i as int]);
                    return true;
                }
                i = i + 1;
            }
            false
        },
    }
}

/// Evaluates the policy on an offer from `nick`, whose full identity is
/// `hostmask`.
pub fn evaluate(
    rules: &AutoAccept,
    has_directory: bool,
    collation: Collation,
    nick: &str,
    hostmask: &str,
) -> (d: Decision)
    ensures
        d == (if allows(*rules, has_directory, collation, nick@, hostmask@) {
            Decision::Allow
        } else {
            Decision::Deny
        }),
{
    let by_nick = lists_nick(&rules.nicks, collation, nick);
    let by_mask = lists_mask(&rules.masks, hostmask);
    decide(rules.enabled, has_directory, by_nick, by_mask)
}

/// A rule set that is switched off, or one without a save directory, allows
/// nobody; so does one in which both lists are absent.
pub proof fn lemma_nothing_allowed_by_omission(
    rules: AutoAccept,
    has_directory: bool,
    collation: Collation,
    nick: Seq<char>,
    hostmask: Seq<char>,
)
    requires
        !rules.enabled || !has_directory || (rules.nicks is None && rules.masks is None),
    ensures
        !allows(rules, has_directory, collation, nick, hostmask),
{
}

/// With the rule set enabled and a save directory configured, a nick that
/// stands in the list as it is written is allowed, under every collation.
pub proof fn lemma_listed_nick_is_allowed(
    rules: AutoAccept,
    collation: Collation,
    nick: Seq<char>,
    hostmask: Seq<char>,
    place: int,
)
    requires
        rules.enabled,
        rules.nicks matches Some(list) && 0 <= place < list@.len() && list@[place]@ == nick,
    ensures
        allows(rules, true, collation, nick, hostmask),
{
    let list = rules.nicks->Some_0;
    assert(collation.equal(list@[place]@, nick));
}

} // verus!

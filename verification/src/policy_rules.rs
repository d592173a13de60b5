//! Conditional allow / deny rules of a policy, on destination and asset.
//!
//! Rules are evaluated in insertion order and the first rule that matches
//! decides: `Allow` permits the transfer, `Deny` refuses it with
//! `RuleDenied`. When no rule matches the transfer is allowed.
//!
//! A rule's value ending in `*` matches every candidate whose text starts
//! with the part before the `*` (a lone `*` matches nothing); any other value
//! must equal the candidate exactly. Matching compares UTF-8 bytes, and both
//! the value and the candidate are limited to `MAX_MATCH_LEN` bytes.
use vstd::prelude::*;
use crate::shared::{Address, Error};
use crate::table::Table;

verus! {

/// Largest number of conditional rules one policy may carry.
pub const MAX_POLICY_RULES: u32 = 16;

/// Longest value or candidate, in bytes, that matching accepts.
pub const MAX_MATCH_LEN: usize = 128;

/// What a matching rule decides.
#[derive(Clone, Copy, Debug, PartialEq, Eq, Structural)]
pub enum RuleMatch {
    Allow,
    Deny,
}

/// Which field of the transfer a rule inspects.
#[derive(Clone, Copy, Debug, PartialEq, Eq, Structural)]
pub enum RuleTarget {
    /// The recipient address.
    Destination,
    /// The asset address.
    Asset,
}

/// One conditional rule of a policy.
#[derive(Debug)]
pub struct PolicyRule {
    /// Identifier, unique within the policy.
    pub id: String,
    pub rule_match: RuleMatch,
    pub target: RuleTarget,
    /// The value matched against; a trailing `*` makes it a prefix.
    pub value: String,
}

impl PolicyRule {
    /// A field-for-field copy of this rule.
    pub fn copied(&self) -> (r: PolicyRule)
        ensures
            r == *self,
    {
        PolicyRule {
            id: self.id.clone(),
            rule_match: self.rule_match,
            target: self.target,
            value: self.value.clone(),
        }
    }
}

/// The UTF-8 bytes of a string.
pub open spec fn bytes_of(s: String) -> Seq<u8> {
    vstd::utf8::encode_utf8(s@)
}

/// Whether `pattern` matches `candidate` (as bytes): a pattern ending in
/// `*` is a prefix (non-empty before the `*`), any other pattern must equal
/// the candidate; the empty pattern matches nothing.
pub open spec fn value_matches(pattern: Seq<u8>, candidate: Seq<u8>) -> bool {
    if pattern.len() == 0 {
        false
    } else if pattern.last() == 42u8 {
        let n = pattern.len() - 1;
        n > 0 && candidate.len() >= n && pattern.subrange(0, n) == candidate.subrange(0, n)
    } else {
        pattern == candidate
    }
}

/// The text a rule inspects.
pub open spec fn candidate_of(rule: PolicyRule, recipient: Address, asset: Address) -> Address {
    match rule.target {
        RuleTarget::Destination => recipient,
        RuleTarget::Asset => asset,
    }
}

/// Whether `s` fits the matching buffers.
pub open spec fn fits(s: String) -> bool {
    bytes_of(s).len() <= MAX_MATCH_LEN
}

fn matches_value(pattern: &String, candidate: &String) -> (r: bool)
    requires
        fits(*pattern),
        fits(*candidate),
    ensures
        r == value_matches(bytes_of(*pattern), bytes_of(*candidate)),
{
    let p = pattern.as_str().as_bytes();
    let c = candidate.as_str().as_bytes();
    assert(p@ == bytes_of(*pattern));
    assert(c@ == bytes_of(*candidate));
    let p_len = p.len();
    let c_len = c.len();
    if p_len == 0 {
        return false;
    }
    if p[p_len - 1] == 42u8 {
        let n = p_len - 1;
        if n == 0 {
            return false;
        }
        if c_len < n {
            return false;
        }
        let mut i: usize = 0;
        while i < n
            invariant
                i <= n,
                n == p@.len() - 1,
                n > 0,
                n <= c@.len(),
                p@ == bytes_of(*pattern),
                c@ == bytes_of(*candidate),
                p@.last() == 42u8,
                forall|j: int| 0 <= j < i ==> p@[j] == c@[j],
            decreases n - i,
        {
            if p[i] != c[i] {
                assert(p@.subrange(0, n as int)[i as int] != c@.subrange(0, n as int)[i as int]);
                return false;
            }
            i = i + 1;
        }
        assert(p@.subrange(0, n as int) =~= c@.subrange(0, n as int));
        true
    } else {
        if p_len != c_len {
            return false;
        }
        let mut i: usize = 0;
        while i < p_len
            invariant
                i <= p_len,
                p_len == p@.len(),
                p_len == c@.len(),
                p_len > 0,
                p@ == bytes_of(*pattern),
                c@ == bytes_of(*candidate),
                p@.last() != 42u8,
                forall|j: int| 0 <= j < i ==> p@[j] == c@[j],
            decreases p_len - i,
        {
            if p[i] != c[i] {
                return false;
            }
            i = i + 1;
        }
        assert(p@ =~= c@);
        true
    }
}

impl PolicyRule {
    /// Whether this rule applies to a transfer of `asset` to `recipient`.
    pub fn matches(&self, recipient: &Address, asset: &Address) -> (r: bool)
        requires
            fits(self.value),
            fits(*recipient),
            fits(*asset),
        ensures
            r == value_matches(bytes_of(self.value), bytes_of(candidate_of(*self, *recipient, *asset))),
    {
        match self.target {
            RuleTarget::Destination => matches_value(&self.value, recipient),
            RuleTarget::Asset => matches_value(&self.value, asset),
        }
    }
}

/// The conditional rules of every policy, by policy id.
pub struct RuleBook {
    rules: Table<Vec<PolicyRule>>,
}

impl RuleBook {
    /// No rules for any policy.
    pub fn new() -> (b: RuleBook)
        ensures
            b.rule_lists() == Map::<Seq<char>, Seq<PolicyRule>>::empty(),
    {
        let b = RuleBook { rules: Table::new() };
        assert(b.rule_lists() =~= Map::<Seq<char>, Seq<PolicyRule>>::empty());
        b
    }

    /// The rules of each policy, in insertion order.
    pub closed spec fn rule_lists(self) -> Map<Seq<char>, Seq<PolicyRule>> {
        self.rules@.map_values(|v: Vec<PolicyRule>| v@)
    }

    /// The rules of policy `id` (empty when none are stored).
    pub open spec fn rules_of(self, id: Seq<char>) -> Seq<PolicyRule> {
        if self.rule_lists().contains_key(id) {
            self.rule_lists()[id]
        } else {
            Seq::empty()
        }
    }
}

/// The rules of `policy_id`, in insertion order.
pub fn load_rules(book: &RuleBook, policy_id: &String) -> (r: Vec<PolicyRule>)
    ensures
        r@ == book.rules_of(policy_id@),
{
    match book.rules.get(policy_id) {
        None => Vec::new(),
        Some(v) => {
            let mut r: Vec<PolicyRule> = Vec::new();
            let mut i: usize = 0;
            while i < v.len()
                invariant
                    i <= v@.len(),
                    r@ == v@.subrange(0, i as int),
                decreases v@.len() - i,
            {
                r.push(v[i].copied());
                i = i + 1;
                assert(r@ =~= v@.subrange(0, i as int));
            }
            assert(v@.subrange(0, v@.len() as int) =~= v@);
            r
        },
    }
}

/// Whether some rule of `rules` has the id `id`.
pub open spec fn has_rule_id(rules: Seq<PolicyRule>, id: String) -> bool {
    exists|k: int| 0 <= k < rules.len() && #[trigger] rules[k].id@ == id@
}

/// Append `rule` to `policy_id`'s rules: refused with `InvalidInput` at
/// `MAX_POLICY_RULES` rules and with `AlreadyExists` when its id is taken.
pub fn add_rule(book: &mut RuleBook, policy_id: &String, rule: PolicyRule) -> (r: Result<(), Error>)
    ensures
        old(book).rules_of(policy_id@).len() >= MAX_POLICY_RULES
            ==> r == Err::<(), Error>(Error::InvalidInput)
            && final(book).rule_lists() == old(book).rule_lists(),
        old(book).rules_of(policy_id@).len() < MAX_POLICY_RULES
            && has_rule_id(old(book).rules_of(policy_id@), rule.id)
            ==> r == Err::<(), Error>(Error::AlreadyExists)
            && final(book).rule_lists() == old(book).rule_lists(),
        old(book).rules_of(policy_id@).len() < MAX_POLICY_RULES
            && !has_rule_id(old(book).rules_of(policy_id@), rule.id)
            ==> r is Ok && final(book).rule_lists()
            == old(book).rule_lists().insert(policy_id@, old(book).rules_of(policy_id@).push(rule)),
{
    let n = match book.rules.get(policy_id) {
        None => 0,
        Some(v) => v.len(),
    };
    if n >= MAX_POLICY_RULES as usize {
        return Err(Error::InvalidInput);
    }
    let taken = match book.rules.get(policy_id) {
        None => false,
        Some(v) => {
            let mut found = false;
            let mut i: usize = 0;
            while i < v.len() && !found
                invariant
                    i <= v@.len(),
                    found ==> i < v@.len() && v@[i as int].id@ == rule.id@,
                    forall|j: int| 0 <= j < i ==> v@[j].id@ != rule.id@,
                decreases v@.len() - i + (if found { 0int } else { 1int }),
            {
                if v[i].id == rule.id {
                    found = true;
                } else {
                    i = i + 1;
                }
            }
            found
        },
    };
    if taken {
        return Err(Error::AlreadyExists);
    }
    let ghost before = book.rules@;
    let mut v = match book.rules.remove(policy_id) {
        Some(v) => v,
        None => Vec::new(),
    };
    v.push(rule);
    book.rules.insert(policy_id.clone(), v);
    proof {
        let mv = |v: Vec<PolicyRule>| v@;
        let old_list = if before.contains_key(policy_id@) {
            before[policy_id@]@
        } else {
            Seq::empty()
        };
        assert(book.rule_lists() =~= before.map_values(mv).insert(policy_id@, old_list.push(rule)));
    }
    Ok(())
}

/// The position of the first rule with id `id` among `rules`, if any.
pub open spec fn first_with_id(rules: Seq<PolicyRule>, id: String) -> Option<int> {
    if has_rule_id(rules, id) {
        Some(
            choose|k: int|
                0 <= k < rules.len() && #[trigger] rules[k].id@ == id@ && forall|j: int|
                    0 <= j < k ==> rules[j].id@ != id@,
        )
    } else {
        None
    }
}

/// Remove the first rule of `policy_id` with id `rule_id`; `NotFound` when
/// there is none.
pub fn remove_rule(book: &mut RuleBook, policy_id: &String, rule_id: &String) -> (r: Result<(), Error>)
    ensures
        match first_with_id(old(book).rules_of(policy_id@), *rule_id) {
            None => r == Err::<(), Error>(Error::NotFound)
                && final(book).rule_lists() == old(book).rule_lists(),
            Some(k) => r is Ok && final(book).rule_lists() == old(book).rule_lists().insert(
                policy_id@,
                old(book).rules_of(policy_id@).remove(k),
            ),
        },
{
    let ghost list = book.rules_of(policy_id@);
    let pos = match book.rules.get(policy_id) {
        None => None,
        Some(v) => {
            let mut found: Option<usize> = None;
            let mut i: usize = 0;
            while i < v.len() && found.is_none()
                invariant
                    i <= v@.len(),
                    found matches Some(k) ==> k == i && i < v@.len() && v@[i as int].id@ == rule_id@,
                    forall|j: int| 0 <= j < i ==> v@[j].id@ != rule_id@,
                decreases v@.len() - i + (if found is None { 1int } else { 0int }),
            {
                if v[i].id == *rule_id {
                    found = Some(i);
                } else {
                    i = i + 1;
                }
            }
            proof {
                match found {
                    Some(k) => {
                        assert(v@[k as int].id@ == rule_id@);
                        assert(has_rule_id(v@, *rule_id));
                    },
                    None => {},
                }
            }
            found
        },
    };
    let k = match pos {
        None => return Err(Error::NotFound),
        Some(k) => k,
    };
    let ghost before = book.rules@;
    let mut v = match book.rules.remove(policy_id) {
        Some(v) => v,
        None => return Err(Error::NotFound),
    };
    v.remove(k);
    book.rules.insert(policy_id.clone(), v);
    proof {
        let mv = |v: Vec<PolicyRule>| v@;
        assert(first_with_id(list, *rule_id) == Some(k as int));
        assert(book.rule_lists() =~= before.map_values(mv).insert(policy_id@, list.remove(k as int)));
    }
    Ok(())
}

/// The verdict of the rules from position `i` on: the first matching rule
/// decides (`Deny` is `RuleDenied`); none matching allows.
pub open spec fn first_match(rules: Seq<PolicyRule>, recipient: Address, asset: Address, i: int) -> Result<
    (),
    Error,
>
    decreases rules.len() - i,
{
    if i < 0 || i >= rules.len() {
        Ok(())
    } else if value_matches(bytes_of(rules[i].value), bytes_of(candidate_of(rules[i], recipient, asset))) {
        match rules[i].rule_match {
            RuleMatch::Deny => Err(Error::RuleDenied),
            RuleMatch::Allow => Ok(()),
        }
    } else {
        first_match(rules, recipient, asset, i + 1)
    }
}

/// Evaluate `policy_id`'s rules against a transfer of `asset` to
/// `recipient`: first match wins, no match allows.
pub fn evaluate_rules(book: &RuleBook, policy_id: &String, recipient: &Address, asset: &Address) -> (r: Result<(), Error>)
    requires
        fits(*recipient),
        fits(*asset),
        forall|k: int|
            0 <= k < book.rules_of(policy_id@).len() ==> fits(
                #[trigger] book.rules_of(policy_id@)[k].value,
            ),
    ensures
        r == first_match(book.rules_of(policy_id@), *recipient, *asset, 0),
{
    let v = match book.rules.get(policy_id) {
        None => return Ok(()),
        Some(v) => v,
    };
    let mut i: usize = 0;
    while i < v.len()
        invariant
            i <= v@.len(),
            v@ == book.rules_of(policy_id@),
            fits(*recipient),
            fits(*asset),
            forall|k: int| 0 <= k < v@.len() ==> fits(#[trigger] v@[k].value),
            first_match(v@, *recipient, *asset, 0) == first_match(v@, *recipient, *asset, i as int),
        decreases v@.len() - i,
    {
        if v[i].matches(recipient, asset) {
            return match v[i].rule_match {
                RuleMatch::Deny => Err(Error::RuleDenied),
                RuleMatch::Allow => Ok(()),
            };
        }
        i = i + 1;
    }
    Ok(())
}

} // verus!

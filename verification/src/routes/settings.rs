//! The list of blocked users, which lives in a cookie of the browser.

use std::collections::HashSet;
use vstd::prelude::*;
use vstd::std_specs::hash::spec_hash_keys_iter;
use vstd::std_specs::iter::IteratorSpec;
use vstd::string::StringExecFns;
use crate::text::{
    all_digits,
    chars_of,
    copy_chars,
    decimal,
    find_from,
    first_from,
    is_digit,
    law_decimal_reads_back,
    lemma_decimal_digits,
    lemma_first_from,
    matches_at,
    number_of,
    occurs_at,
    parse_u64,
    push_decimal,
    split,
    split_chars,
    views_of,
};

verus! {

broadcast use vstd::std_specs::hash::group_hash_axioms;

/// The name of the cookie that holds the list.
pub const BLOCKED_COOKIE: &'static str = "blocked_users";

/// What stands between two users in the cookie: a vertical bar, escaped.
pub const SEPERATOR: &'static str = "%7C";

/// The sequence lists the set: it holds the ids of the set and no other,
/// each once.
pub open spec fn lists(ids: Seq<u64>, users: Set<u64>) -> bool {
    ids.no_duplicates() && ids.to_set() == users
}

/// The text is the set written out: the ids of some listing of the set in
/// decimal, with the separator between them.
pub open spec fn written(users: Set<u64>, sep: Seq<char>, text: Seq<char>) -> bool {
    exists|ids: Seq<u64>| lists(ids, users) && text == #[trigger] joined(ids, sep)
}

/// A set of user ids.
pub struct BlockedUsers {
    ids: HashSet<u64>,
}

impl View for BlockedUsers {
    type V = Set<u64>;

    closed spec fn view(&self) -> Set<u64> {
        self.ids@
    }
}

impl BlockedUsers {
    /// The empty set.
    pub fn new() -> (s: BlockedUsers)
        ensures
            s@ == Set::<u64>::empty(),
    {
        BlockedUsers { ids: HashSet::new() }
    }

    /// The number of ids in the set.
    pub fn len(&self) -> (n: usize)
        ensures
            n == self@.len(),
    {
        self.ids.len()
    }

    pub fn is_empty(&self) -> (b: bool)
        ensures
            b == (self@.len() == 0),
    {
        self.ids.len() == 0
    }

    /// The ids, each once, in the order in which the set is walked, which
    /// is the set's own and may differ from one walk to the next.
    pub fn ids(&self) -> (ids: Vec<u64>)
        ensures
            lists(ids@, self@),
    {
        let mut ids: Vec<u64> = Vec::new();
        let ghost walked = spec_hash_keys_iter(&self.ids).remaining();
        let ghost all = walked.unref();
        proof {
            assert(walked.no_duplicates());
            assert(all.len() == walked.len());
            assert forall|i: int, j: int|
                0 <= i < all.len() && 0 <= j < all.len() && i != j implies all[i] != all[j] by {
                assert(walked[i] != walked[j]);
            }
        }
        for id in iter: self.ids.iter()
            invariant
                iter.seq().unref() == all,
                ids@ == all.take(iter.index() as int),
        {
            ids.push(*id);
            assert(all.take(iter.index() + 1) =~= all.take(iter.index() as int).push(*id));
        }
        assert(ids@ =~= all);
        ids
    }

    /// Whether the set holds `id`.
    pub fn contains(&self, id: u64) -> (b: bool)
        ensures
            b == self@.contains(id),
    {
        self.ids.contains(&id)
    }

    /// Adds `id` to the set. Returns whether it was new.
    pub fn insert(&mut self, id: u64) -> (added: bool)
        ensures
            final(self)@ == old(self)@.insert(id),
            added == !old(self)@.contains(id),
    {
        self.ids.insert(id)
    }

    /// Takes `id` out of the set. Returns whether it was in it.
    pub fn remove(&mut self, id: u64) -> (removed: bool)
        ensures
            final(self)@ == old(self)@.remove(id),
            removed == old(self)@.contains(id),
    {
        self.ids.remove(&id)
    }
}

/// The ids that the parts write, those parts left out that write none.
pub open spec fn ids_of(parts: Seq<Seq<char>>) -> Set<u64>
    decreases parts.len(),
{
    if parts.len() == 0 {
        Set::empty()
    } else {
        match number_of(parts.last(), u64::MAX as nat) {
            Some(id) => ids_of(parts.drop_last()).insert(id as u64),
            None => ids_of(parts.drop_last()),
        }
    }
}

/// The ids that a list names: the numbers between its separators.
pub open spec fn blocked_in(value: Seq<char>) -> Set<u64> {
    ids_of(split(value, SEPERATOR@))
}

/// Adds to `users` (or with `add` false takes out of it) every id that
/// the list in `value` names.
fn apply_list(users: &mut BlockedUsers, value: &[char], add: bool)
    ensures
        final(users)@ == if add {
            old(users)@.union(blocked_in(value@))
        } else {
            old(users)@.difference(blocked_in(value@))
        },
{
    let sep = chars_of(SEPERATOR);
    let parts = split_chars(value, sep.as_slice());
    let n: usize = parts.len();
    let mut i: usize = 0;
    let ghost all = views_of(parts@);
    assert(all.take(0) =~= Seq::<Seq<char>>::empty());
    assert(users@.union(Set::<u64>::empty()) =~= users@);
    assert(users@.difference(Set::<u64>::empty()) =~= users@);
    while i < n
        invariant
            0 <= i <= n,
            n == parts@.len(),
            all == views_of(parts@),
            users@ == if add {
                old(users)@.union(ids_of(all.take(i as int)))
            } else {
                old(users)@.difference(ids_of(all.take(i as int)))
            },
        decreases n - i,
    {
        proof {
            assert(all.take(i + 1).drop_last() =~= all.take(i as int));
            assert(all.take(i + 1).last() == parts@[i as int]@);
        }
        match parse_u64(parts[i].as_slice()) {
            Some(id) => {
                let ghost so_far = ids_of(all.take(i as int));
                if add {
                    users.insert(id);
                    assert(old(users)@.union(so_far).insert(id) =~= old(users)@.union(
                        so_far.insert(id),
                    ));
                } else {
                    users.remove(id);
                    assert(old(users)@.difference(so_far).remove(id) =~= old(users)@.difference(
                        so_far.insert(id),
                    ));
                }
            },
            None => {},
        }
        i += 1;
    }
    assert(all.take(n as int) =~= all);
}

/// The blocked users that the cookie names; none where there is no
/// cookie. Parts of the cookie that are no number are passed over.
pub fn get_blocked_userids(cookie: Option<&str>) -> (users: BlockedUsers)
    ensures
        users@ == match cookie {
            Some(value) => blocked_in(value@),
            None => Set::<u64>::empty(),
        },
{
    let mut users = BlockedUsers::new();
    match cookie {
        Some(value) => {
            let chars = chars_of(value);
            apply_list(&mut users, chars.as_slice(), true);
            assert(Set::<u64>::empty().union(blocked_in(value@)) =~= blocked_in(value@));
        },
        None => {},
    }
    users
}

/// The ids in decimal with `sep` between them.
pub open spec fn joined(ids: Seq<u64>, sep: Seq<char>) -> Seq<char>
    decreases ids.len(),
{
    if ids.len() == 0 {
        Seq::empty()
    } else if ids.len() == 1 {
        decimal(ids[0] as nat)
    } else {
        joined(ids.drop_last(), sep) + sep + decimal(ids.last() as nat)
    }
}

/// Appends the ids in decimal with `sep` between them.
fn push_joined(out: &mut String, ids: &[u64], sep: &str)
    ensures
        final(out)@ == old(out)@ + joined(ids@, sep@),
{
    let n: usize = ids.len();
    let mut i: usize = 0;
    assert(ids@.take(0) =~= Seq::<u64>::empty());
    assert(out@ =~= old(out)@ + joined(ids@.take(0), sep@));
    while i < n
        invariant
            0 <= i <= n,
            n == ids@.len(),
            out@ == old(out)@ + joined(ids@.take(i as int), sep@),
        decreases n - i,
    {
        proof {
            assert(ids@.take(i + 1).drop_last() =~= ids@.take(i as int));
            assert(ids@.take(i + 1).last() == ids@[i as int]);
        }
        let ghost before = out@;
        if i > 0 {
            out.append(sep);
        }
        push_decimal(out, ids[i]);
        i += 1;
        assert(out@ =~= old(out)@ + joined(ids@.take(i as int), sep@));
    }
    assert(ids@.take(n as int) =~= ids@);
}

/// The list of blocked users for a reader to copy: the ids, in the order
/// in which the set is walked, with a vertical bar between them.
pub fn format_blocked_userids(users: &BlockedUsers) -> (s: String)
    ensures
        written(users@, "|"@, s@),
{
    let mut s = String::new();
    let ids = users.ids();
    push_joined(&mut s, ids.as_slice(), "|");
    assert(s@ =~= joined(ids@, "|"@));
    s
}

/// The `Set-Cookie` header's value without the list: the cookie's name and
/// an equals sign before it, the root path behind it.
pub open spec fn cookie_around(list: Seq<char>) -> Seq<char> {
    BLOCKED_COOKIE@ + seq!['='] + list + "; Path=/"@
}

/// The value of the `Set-Cookie` header that stores the list: the
/// cookie's name, the ids as the set is walked with the separator between
/// them, and the root path.
pub fn set_blocked_userids(users: &BlockedUsers) -> (header: String)
    ensures
        exists|list: Seq<char>|
            written(users@, SEPERATOR@, list) && header@ == #[trigger] cookie_around(list),
{
    let mut header = String::from_str(BLOCKED_COOKIE);
    proof {
        reveal_strlit("=");
    }
    header.append("=");
    let ids = users.ids();
    push_joined(&mut header, ids.as_slice(), SEPERATOR);
    header.append("; Path=/");
    assert(header@ =~= cookie_around(joined(ids@, SEPERATOR@)));
    assert(written(users@, SEPERATOR@, joined(ids@, SEPERATOR@)));
    header
}

/// The ids that a posted form names. The form is one field, a key and a
/// value with the first equals sign between them: the key `bulk` with a
/// list of ids as its value, or an id as the key. Any other form names
/// nothing.
pub open spec fn form_ids(form: Seq<char>) -> Option<Set<u64>> {
    match first_from(form, seq!['='], 0) {
        Some(i) => {
            let key = form.take(i);
            let value = form.skip(i + 1);
            if key == "bulk"@ {
                Some(blocked_in(value))
            } else {
                match number_of(key, u64::MAX as nat) {
                    Some(id) => Some(set![id as u64]),
                    None => None,
                }
            }
        },
        None => None,
    }
}

/// Applies a posted form to the blocked users: adds the ids it names, or
/// with `add` false takes them out. Returns nothing where the form names
/// nothing, and then no cookie is to be set.
fn apply_form(blocked: BlockedUsers, form: &str, add: bool) -> (r: Option<BlockedUsers>)
    ensures
        match r {
            Some(users) => {
                &&& form_ids(form@) is Some
                &&& users@ == if add {
                    blocked@.union(form_ids(form@).unwrap())
                } else {
                    blocked@.difference(form_ids(form@).unwrap())
                }
            },
            None => form_ids(form@) is None,
        },
{
    let chars = chars_of(form);
    let mut equals: Vec<char> = Vec::new();
    equals.push('=');
    assert(equals@ =~= seq!['=']);
    let at = match find_from(chars.as_slice(), equals.as_slice(), 0) {
        Some(at) => at,
        None => {
            return None;
        },
    };
    proof {
        lemma_first_from(form@, seq!['='], 0);
        assert(occurs_at(form@, at as int, seq!['=']));
        assert(seq!['='].len() == 1);
    }
    let n: usize = chars.len();
    assert(at + 1 <= n);
    let key = copy_chars(chars.as_slice(), 0, at);
    let value = copy_chars(chars.as_slice(), at + 1, n);
    assert(key@ =~= form@.take(at as int));
    assert(value@ =~= form@.skip(at + 1));
    let bulk = chars_of("bulk");
    let mut users = blocked;
    if matches_at(key.as_slice(), 0, bulk.as_slice()) && key.len() == bulk.len() {
        assert(key@ =~= key@.subrange(0, key@.len() as int));
        apply_list(&mut users, value.as_slice(), add);
        Some(users)
    } else {
        assert(key@ != "bulk"@) by {
            if key@.len() == bulk@.len() {
                assert(key@ =~= key@.subrange(0, key@.len() as int));
            }
        }
        match parse_u64(key.as_slice()) {
            Some(id) => {
                if add {
                    users.insert(id);
                    assert(blocked@.insert(id) =~= blocked@.union(set![id]));
                } else {
                    users.remove(id);
                    assert(blocked@.remove(id) =~= blocked@.difference(set![id]));
                }
                Some(users)
            },
            None => None,
        }
    }
}

/// Blocks the users that a posted form names. Returns the new list, or
/// nothing where the form names nothing.
pub fn blocked_users_add(blocked: BlockedUsers, form: &str) -> (r: Option<BlockedUsers>)
    ensures
        match r {
            Some(users) => form_ids(form@) is Some && users@ == blocked@.union(
                form_ids(form@).unwrap(),
            ),
            None => form_ids(form@) is None,
        },
{
    apply_form(blocked, form, true)
}

/// Unblocks the users that a posted form names. Returns the new list, or
/// nothing where the form names nothing.
pub fn blocked_users_del(blocked: BlockedUsers, form: &str) -> (r: Option<BlockedUsers>)
    ensures
        match r {
            Some(users) => form_ids(form@) is Some && users@
                == blocked@.difference(form_ids(form@).unwrap()),
            None => form_ids(form@) is None,
        },
{
    apply_form(blocked, form, false)
}

/// The ids joined are the first id, the separator, and the other ids
/// joined.
proof fn lemma_joined_first(ids: Seq<u64>, sep: Seq<char>)
    requires
        ids.len() >= 2,
    ensures
        joined(ids, sep) == decimal(ids[0] as nat) + sep + joined(ids.drop_first(), sep),
    decreases ids.len(),
{
    let rest = ids.drop_first();
    let front = ids.drop_last();
    let last = decimal(ids.last() as nat);
    assert(rest.last() == ids.last());
    assert(front[0] == ids[0]);
    assert(joined(ids, sep) == joined(front, sep) + sep + last);
    if ids.len() == 2 {
        assert(front =~= seq![ids[0]]);
        assert(rest =~= seq![ids[1]]);
        assert(joined(front, sep) == decimal(ids[0] as nat));
        assert(joined(rest, sep) == decimal(rest[0] as nat));
    } else {
        lemma_joined_first(front, sep);
        assert(rest.drop_last() =~= front.drop_first());
        assert(joined(rest, sep) == joined(rest.drop_last(), sep) + sep + last);
        assert(joined(front, sep) + sep + last =~= decimal(ids[0] as nat) + sep + (joined(
            front.drop_first(),
            sep,
        ) + sep + last));
    }
}

/// Digits hold no separator that begins with no digit.
proof fn lemma_no_separator_in_digits(digits: Seq<char>, sep: Seq<char>)
    requires
        all_digits(digits),
        sep.len() > 0,
        !is_digit(sep[0]),
    ensures
        first_from(digits, sep, 0) is None,
{
    lemma_first_from(digits, sep, 0);
    match first_from(digits, sep, 0) {
        Some(i) => {
            assert(digits.subrange(i, i + sep.len())[0] == digits[i]);
            assert(is_digit(digits[i]));
        },
        None => {},
    }
}

/// An occurrence with none before it is the first.
proof fn lemma_first_is(s: Seq<char>, sep: Seq<char>, n: int)
    requires
        occurs_at(s, n, sep),
        forall|j: int| 0 <= j < n ==> !occurs_at(s, j, sep),
    ensures
        first_from(s, sep, 0) == Some(n),
{
    lemma_first_from(s, sep, 0);
}

/// No separator that begins with no digit stands where a digit stands.
proof fn lemma_no_separator_at_digit(s: Seq<char>, sep: Seq<char>, j: int)
    requires
        0 <= j < s.len(),
        is_digit(s[j]),
        sep.len() > 0,
        !is_digit(sep[0]),
    ensures
        !occurs_at(s, j, sep),
{
    if occurs_at(s, j, sep) {
        assert(s.subrange(j, j + sep.len())[0] == s[j]);
    }
}

/// In digits followed by a separator that begins with no digit, the
/// separator is first found right behind the digits.
proof fn lemma_separator_behind_digits(digits: Seq<char>, sep: Seq<char>, rest: Seq<char>)
    requires
        all_digits(digits),
        sep.len() > 0,
        !is_digit(sep[0]),
    ensures
        first_from(digits + sep + rest, sep, 0) == Some(digits.len() as int),
{
    let s = digits + sep + rest;
    let n = digits.len() as int;
    assert(occurs_at(s, n, sep)) by {
        assert(s.subrange(n, n + sep.len()) =~= sep);
    }
    assert forall|j: int| 0 <= j < n implies !occurs_at(s, j, sep) by {
        assert(s[j] == digits[j]);
        assert(is_digit(digits[j]));
        lemma_no_separator_at_digit(s, sep, j);
    }
    lemma_first_is(s, sep, n);
}

/// The ids of a first part and more parts are the ids of the more parts
/// and, where the first part writes one, its id.
proof fn lemma_ids_of_first(first: Seq<char>, parts: Seq<Seq<char>>)
    ensures
        ids_of(seq![first] + parts) == match number_of(first, u64::MAX as nat) {
            Some(id) => ids_of(parts).insert(id as u64),
            None => ids_of(parts),
        },
    decreases parts.len(),
{
    let all = seq![first] + parts;
    if parts.len() == 0 {
        assert(all.drop_last() =~= Seq::<Seq<char>>::empty());
        assert(all.last() == first);
        assert(ids_of(all.drop_last()) =~= Set::<u64>::empty());
        assert(ids_of(parts) =~= Set::<u64>::empty());
    } else {
        assert(all.last() == parts.last());
        assert(all.drop_last() =~= seq![first] + parts.drop_last());
        lemma_ids_of_first(first, parts.drop_last());
        match number_of(first, u64::MAX as nat) {
            Some(a) => match number_of(parts.last(), u64::MAX as nat) {
                Some(b) => {
                    assert(ids_of(parts.drop_last()).insert(a as u64).insert(b as u64)
                        =~= ids_of(parts.drop_last()).insert(b as u64).insert(a as u64));
                },
                None => {},
            },
            None => {},
        }
    }
}

/// The ids joined with a separator that begins with no digit are read
/// back as the same ids.
proof fn lemma_joined_reads_back(ids: Seq<u64>, sep: Seq<char>)
    requires
        sep.len() > 0,
        !is_digit(sep[0]),
    ensures
        ids_of(split(joined(ids, sep), sep)) == ids.to_set(),
    decreases ids.len(),
{
    if ids.len() == 0 {
        let empty = Seq::<char>::empty();
        lemma_first_from(empty, sep, 0);
        assert(split(empty, sep) =~= seq![empty]);
        lemma_ids_of_first(empty, Seq::empty());
        assert(seq![empty] + Seq::<Seq<char>>::empty() =~= seq![empty]);
        assert(ids_of(Seq::<Seq<char>>::empty()) =~= Set::<u64>::empty());
        assert(ids.to_set() =~= Set::<u64>::empty());
    } else {
        let first = decimal(ids[0] as nat);
        lemma_decimal_digits(ids[0] as nat);
        law_decimal_reads_back(ids[0] as nat, u64::MAX as nat);
        if ids.len() == 1 {
            lemma_no_separator_in_digits(first, sep);
            assert(split(first, sep) =~= seq![first]);
            lemma_ids_of_first(first, Seq::empty());
            assert(seq![first] + Seq::<Seq<char>>::empty() =~= seq![first]);
            assert(ids_of(Seq::<Seq<char>>::empty()) =~= Set::<u64>::empty());
            assert(ids.to_set() =~= Set::<u64>::empty().insert(ids[0])) by {
                assert forall|x: u64| ids.to_set().contains(x) <==> x == ids[0] by {
                    if x == ids[0] {
                        assert(ids[0] == x);
                    }
                }
            }
        } else {
            let rest = ids.drop_first();
            let tail = joined(rest, sep);
            lemma_joined_first(ids, sep);
            lemma_separator_behind_digits(first, sep, tail);
            let s = first + sep + tail;
            assert(s.take(first.len() as int) =~= first);
            assert(s.skip((first.len() + sep.len()) as int) =~= tail);
            assert(split(s, sep) == seq![first] + split(tail, sep));
            lemma_joined_reads_back(rest, sep);
            lemma_ids_of_first(first, split(tail, sep));
            assert(ids.to_set() =~= rest.to_set().insert(ids[0])) by {
                assert forall|x: u64| ids.to_set().contains(x) <==> rest.to_set().insert(
                    ids[0],
                ).contains(x) by {
                    if ids.contains(x) {
                        let k = choose|k: int| 0 <= k < ids.len() && ids[k] == x;
                        if k > 0 {
                            assert(rest[k - 1] == x);
                        }
                    }
                    if rest.contains(x) {
                        let k = choose|k: int| 0 <= k < rest.len() && rest[k] == x;
                        assert(ids[k + 1] == x);
                    }
                    if x == ids[0] {
                        assert(ids[0] == x);
                    }
                }
            }
        }
    }
}

/// What is stored in the cookie is read back from it: in whatever order
/// the set is written between the cookie's name and its path, the list
/// names exactly the users of the set.
pub proof fn law_cookie_reads_back(users: Set<u64>, list: Seq<char>)
    requires
        written(users, SEPERATOR@, list),
    ensures
        blocked_in(list) == users,
{
    reveal_strlit("%7C");
    assert(SEPERATOR@ == "%7C"@);
    assert(SEPERATOR@[0] == '%');
    assert('%' as u32 == 37);
    let ids = choose|ids: Seq<u64>| lists(ids, users) && list == #[trigger] joined(ids, SEPERATOR@);
    lemma_joined_reads_back(ids, SEPERATOR@);
}

} // verus!

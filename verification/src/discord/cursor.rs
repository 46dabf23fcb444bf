//! Message ordering and the `--after` cursor shared by `read` and `wait`.

use vstd::prelude::*;
use vstd::string::*;
use crate::discord::api::Message;
use crate::discord::error::{plain_error, AppError, ErrorKind};
use crate::text::{decimal, parse_u64, parse_unsigned, u64_to_decimal};

verus! {

/// The message for a `limit` outside `1..=100`.
pub open spec fn limit_message(limit: u8) -> Seq<char> {
    "limit must be 1..=100 (got "@ + decimal(limit as nat) + ")"@
}

/// Discord caps `limit` at 100; anything outside `1..=100` is a usage error.
pub fn validate_limit(limit: u8) -> (r: Result<(), AppError>)
    ensures
        1 <= limit <= 100 ==> r is Ok,
        !(1 <= limit <= 100) ==> (r matches Err(e) && plain_error(ErrorKind::Usage, limit_message(limit), e)),
{
    if 1 <= limit && limit <= 100 {
        Ok(())
    } else {
        let mut message = String::new();
        message.append("limit must be 1..=100 (got ");
        message.append(u64_to_decimal(limit as u64).as_str());
        message.append(")");
        Err(AppError::with_message(ErrorKind::Usage, message))
    }
}

/// The numeric value of a snowflake id, when it is one.
pub open spec fn snowflake(id: Seq<char>) -> Option<int> {
    parse_unsigned(id, u64::MAX as int)
}

/// The message for an id that is not a snowflake.
pub open spec fn bad_snowflake_message(id: Seq<char>) -> Seq<char> {
    "message id '"@ + id + "' is not a valid u64 snowflake"@
}

/// Parses a Discord snowflake. A failure means the API answered with
/// something that is not a snowflake: an API error, not a usage error.
pub fn parse_snowflake(id: &str) -> (r: Result<u64, AppError>)
    ensures
        match r {
            Ok(v) => snowflake(id@) == Some(v as int),
            Err(e) => snowflake(id@) is None && plain_error(ErrorKind::Api, bad_snowflake_message(id@), e),
        },
{
    match parse_u64(id) {
        Some(v) => Ok(v),
        None => {
            let mut message = String::new();
            message.append("message id '");
            message.append(id);
            message.append("' is not a valid u64 snowflake");
            Err(AppError::with_message(ErrorKind::Api, message))
        },
    }
}

/// The sort key of a message: its id's numeric value.
pub open spec fn key_of(m: Message) -> int {
    match snowflake(m.id@) {
        Some(v) => v,
        None => 0,
    }
}

/// `out` is `orig` stably sorted by numeric id: a rearrangement of it,
/// ascending by id, in which messages with equal ids keep their order.
pub open spec fn stably_sorted(orig: Seq<Message>, out: Seq<Message>) -> bool {
    exists|perm: Seq<int>| {
        &&& perm.len() == orig.len()
        &&& out.len() == orig.len()
        &&& forall|k: int| 0 <= k < out.len() ==> 0 <= #[trigger] perm[k] < orig.len() && out[k] == orig[perm[k]]
        &&& forall|a: int, b: int| 0 <= a < out.len() && 0 <= b < out.len() && a != b ==> perm[a] != perm[b]
        &&& forall|a: int, b: int| 0 <= a < b < out.len() ==> key_of(out[a]) <= key_of(out[b])
        &&& forall|a: int, b: int| 0 <= a < b < out.len() && key_of(out[a]) == key_of(out[b]) ==> perm[a] < perm[b]
    }
}

/// Where the element now at `x` stood before the element at `i` was moved
/// down to `j`.
pub open spec fn source_index(x: int, i: int, j: int) -> int {
    if x < j { x } else if x == j { i } else if x <= i { x - 1 } else { x }
}

/// One insertion-sort step keeps the sort invariant: moving element `i` to
/// the slot `j` after every key not above it extends the sorted, stable
/// prefix by one while keeping the rearrangement a bijection.
proof fn lemma_insertion_step(
    orig: Seq<Message>,
    old_keys: Seq<u64>,
    old_v: Seq<Message>,
    old_perm: Seq<int>,
    keys: Seq<u64>,
    v: Seq<Message>,
    perm: Seq<int>,
    i: int,
    j: int,
    n: int,
)
    requires
        0 <= j <= i < n,
        orig.len() == n,
        old_keys.len() == n,
        old_v.len() == n,
        old_perm.len() == n,
        keys == old_keys.remove(i).insert(j, old_keys[i]),
        v == old_v.remove(i).insert(j, old_v[i]),
        perm == old_perm.remove(i).insert(j, i),
        forall|k: int| 0 <= k < n ==> old_keys[k] == key_of(#[trigger] old_v[k]),
        forall|k: int| 0 <= k < n ==> 0 <= #[trigger] old_perm[k] < n && old_v[k] == orig[old_perm[k]],
        forall|k: int| i <= k < n ==> #[trigger] old_perm[k] == k,
        forall|k: int| 0 <= k < i ==> #[trigger] old_perm[k] < i,
        forall|a: int, b: int| 0 <= a < n && 0 <= b < n && a != b ==> old_perm[a] != old_perm[b],
        forall|a: int, b: int| 0 <= a < b < i ==> old_keys[a] <= old_keys[b],
        forall|a: int, b: int| 0 <= a < b < i && old_keys[a] == old_keys[b] ==> old_perm[a] < old_perm[b],
        forall|t: int| 0 <= t < j ==> old_keys[t] <= old_keys[i],
        forall|t: int| j <= t < i ==> old_keys[t] > old_keys[i],
    ensures
        keys.len() == n,
        v.len() == n,
        perm.len() == n,
        forall|k: int| 0 <= k < n ==> keys[k] == key_of(#[trigger] v[k]),
        forall|k: int| 0 <= k < n ==> 0 <= #[trigger] perm[k] < n && v[k] == orig[perm[k]],
        forall|k: int| i + 1 <= k < n ==> #[trigger] perm[k] == k,
        forall|k: int| 0 <= k < i + 1 ==> #[trigger] perm[k] < i + 1,
        forall|a: int, b: int| 0 <= a < n && 0 <= b < n && a != b ==> perm[a] != perm[b],
        forall|a: int, b: int| 0 <= a < b < i + 1 ==> keys[a] <= keys[b],
        forall|a: int, b: int| 0 <= a < b < i + 1 && keys[a] == keys[b] ==> perm[a] < perm[b],
{
    assert forall|x: int| 0 <= x < n implies keys[x] == old_keys[source_index(x, i, j)]
        && v[x] == old_v[source_index(x, i, j)]
        && perm[x] == (if x == j { i } else { old_perm[source_index(x, i, j)] }) by {
    }
    assert forall|x: int| 0 <= x < n implies perm[x] == old_perm[source_index(x, i, j)] by {
        if x == j {
            assert(old_perm[i] == i);
        }
    }
    assert forall|a: int, b: int| 0 <= a < n && 0 <= b < n && a != b implies perm[a] != perm[b] by {
        assert(perm[a] == old_perm[source_index(a, i, j)]);
        assert(perm[b] == old_perm[source_index(b, i, j)]);
    }
    assert forall|a: int, b: int| 0 <= a < b < i + 1 implies keys[a] <= keys[b] by {
        assert(keys[a] == old_keys[source_index(a, i, j)]);
        assert(keys[b] == old_keys[source_index(b, i, j)]);
    }
    assert forall|a: int, b: int| 0 <= a < b < i + 1 && keys[a] == keys[b] implies perm[a] < perm[b] by {
        assert(keys[a] == old_keys[source_index(a, i, j)]);
        assert(keys[b] == old_keys[source_index(b, i, j)]);
        assert(perm[a] == old_perm[source_index(a, i, j)]);
        assert(perm[b] == old_perm[source_index(b, i, j)]);
    }
    assert forall|k: int| 0 <= k < i + 1 implies #[trigger] perm[k] < i + 1 by {
        assert(perm[k] == old_perm[source_index(k, i, j)]);
    }
    assert forall|k: int| 0 <= k < n implies 0 <= #[trigger] perm[k] < n && v[k] == orig[perm[k]] by {
        assert(perm[k] == old_perm[source_index(k, i, j)]);
        assert(v[k] == old_v[source_index(k, i, j)]);
    }
    assert forall|k: int| 0 <= k < n implies keys[k] == key_of(#[trigger] v[k]) by {
        assert(keys[k] == old_keys[source_index(k, i, j)]);
        assert(v[k] == old_v[source_index(k, i, j)]);
    }
}

/// Discord returns messages newest-first; the tool reports them
/// oldest-first, ordered by the numeric value of their ids (a lexical order
/// would put "9" after "10"). An id that is not a snowflake fails the whole
/// batch with the error for the first such message.
pub fn sort_ascending_by_id(messages: Vec<Message>) -> (r: Result<Vec<Message>, AppError>)
    ensures
        match r {
            Ok(out) => {
                &&& forall|i: int| 0 <= i < messages@.len() ==> snowflake(#[trigger] messages@[i].id@) is Some
                &&& stably_sorted(messages@, out@)
            },
            Err(e) => exists|i: int| {
                &&& 0 <= i < messages@.len()
                &&& forall|t: int| 0 <= t < i ==> snowflake(#[trigger] messages@[t].id@) is Some
                &&& snowflake(messages@[i].id@) is None
                &&& plain_error(ErrorKind::Api, bad_snowflake_message(messages@[i].id@), e)
            },
        },
{
    let n = messages.len();
    let mut keys: Vec<u64> = Vec::new();
    let mut i: usize = 0;
    while i < n
        invariant
            n == messages@.len(),
            i <= n,
            keys@.len() == i,
            forall|t: int| 0 <= t < i ==> snowflake(#[trigger] messages@[t].id@) is Some,
            forall|t: int| 0 <= t < i ==> keys@[t] == key_of(#[trigger] messages@[t]),
        decreases n - i,
    {
        match parse_snowflake(messages[i].id.as_str()) {
            Ok(k) => {
                keys.push(k);
            },
            Err(e) => {
                return Err(e);
            },
        }
        i = i + 1;
    }
    let ghost orig = messages@;
    let mut v = messages;
    let ghost mut perm: Seq<int> = Seq::new(n as nat, |k: int| k);
    let mut i: usize = 0;
    while i < n
        invariant
            n == orig.len(),
            i <= n,
            v@.len() == n,
            keys@.len() == n,
            perm.len() == n,
            forall|t: int| 0 <= t < n ==> snowflake(#[trigger] orig[t].id@) is Some,
            forall|k: int| 0 <= k < n ==> keys@[k] == key_of(#[trigger] v@[k]),
            forall|k: int| 0 <= k < n ==> 0 <= #[trigger] perm[k] < n && v@[k] == orig[perm[k]],
            forall|k: int| i <= k < n ==> #[trigger] perm[k] == k,
            forall|k: int| 0 <= k < i ==> #[trigger] perm[k] < i,
            forall|a: int, b: int| 0 <= a < n && 0 <= b < n && a != b ==> perm[a] != perm[b],
            forall|a: int, b: int| 0 <= a < b < i ==> keys@[a] <= keys@[b],
            forall|a: int, b: int| 0 <= a < b < i && keys@[a] == keys@[b] ==> perm[a] < perm[b],
        decreases n - i,
    {
        let k = keys[i];
        let mut j: usize = i;
        while j > 0 && keys[j - 1] > k
            invariant
                j <= i < n,
                keys@.len() == n,
                k == keys@[i as int],
                forall|t: int| j <= t < i ==> keys@[t] > k,
            decreases j,
        {
            j = j - 1;
        }
        assert(forall|t: int| 0 <= t < j ==> keys@[t] <= k) by {
            if j > 0 {
                assert(keys@[j - 1] <= k);
            }
        }
        let ghost old_keys = keys@;
        let ghost old_v = v@;
        let ghost old_perm = perm;
        let m = v.remove(i);
        let kk = keys.remove(i);
        v.insert(j, m);
        keys.insert(j, kk);
        proof {
            perm = old_perm.remove(i as int).insert(j as int, i as int);
            lemma_insertion_step(orig, old_keys, old_v, old_perm, keys@, v@, perm, i as int, j as int, n as int);
        }
        i = i + 1;
    }
    proof {
        assert forall|a: int, b: int| 0 <= a < b < v@.len() implies key_of(v@[a]) <= key_of(v@[b]) by {
            assert(keys@[a] == key_of(v@[a]));
            assert(keys@[b] == key_of(v@[b]));
        }
        assert forall|a: int, b: int| 0 <= a < b < v@.len() && key_of(v@[a]) == key_of(v@[b]) implies perm[a] < perm[b] by {
            assert(keys@[a] == key_of(v@[a]));
            assert(keys@[b] == key_of(v@[b]));
        }
        assert(stably_sorted(orig, v@));
    }
    Ok(v)
}

/// The cursor for the next `--after`: the id of the newest (last) message,
/// or `after` unchanged when nothing came back.
pub open spec fn cursor_after(sorted: Seq<Message>, after: Option<Seq<char>>) -> Option<Seq<char>> {
    if sorted.len() > 0 {
        Some(sorted.last().id@)
    } else {
        after
    }
}

pub open spec fn opt_string_view(o: Option<String>) -> Option<Seq<char>> {
    match o {
        Some(s) => Some(s@),
        None => None,
    }
}

pub open spec fn opt_str_view(o: Option<&str>) -> Option<Seq<char>> {
    match o {
        Some(s) => Some(s@),
        None => None,
    }
}

/// The cursor for the next call is the newest message's id: when the
/// batch is non-empty it is the id of one of the fetched messages and no
/// reported message has a larger id, whatever `--after` was; only an empty
/// batch hands `--after` back unchanged.
pub proof fn lemma_cursor_is_the_newest_id(
    messages: Seq<Message>,
    sorted: Seq<Message>,
    after: Option<Seq<char>>,
    other_after: Option<Seq<char>>,
)
    requires
        stably_sorted(messages, sorted),
    ensures
        messages.len() == 0 ==> cursor_after(sorted, after) == after,
        messages.len() > 0 ==> exists|i: int| {
            &&& 0 <= i < messages.len()
            &&& cursor_after(sorted, after) == Some(#[trigger] messages[i].id@)
            &&& forall|a: int| 0 <= a < sorted.len() ==> key_of(#[trigger] sorted[a]) <= key_of(messages[i])
        },
        messages.len() > 0 ==> cursor_after(sorted, after) == cursor_after(sorted, other_after),
{
    let perm = choose|perm: Seq<int>| {
        &&& perm.len() == messages.len()
        &&& sorted.len() == messages.len()
        &&& forall|k: int| 0 <= k < sorted.len() ==> 0 <= #[trigger] perm[k] < messages.len() && sorted[k] == messages[perm[k]]
        &&& forall|a: int, b: int| 0 <= a < sorted.len() && 0 <= b < sorted.len() && a != b ==> perm[a] != perm[b]
        &&& forall|a: int, b: int| 0 <= a < b < sorted.len() ==> key_of(sorted[a]) <= key_of(sorted[b])
        &&& forall|a: int, b: int| 0 <= a < b < sorted.len() && key_of(sorted[a]) == key_of(sorted[b]) ==> perm[a] < perm[b]
    };
    if messages.len() > 0 {
        let n = sorted.len() as int;
        let i = perm[n - 1];
        assert(sorted[n - 1] == messages[i]);
        assert(sorted.last() == sorted[n - 1]);
        assert forall|a: int| 0 <= a < sorted.len() implies key_of(#[trigger] sorted[a]) <= key_of(messages[i]) by {
            if a < n - 1 {
                assert(key_of(sorted[a]) <= key_of(sorted[n - 1]));
            }
        }
    }
}

pub fn newest_cursor(sorted_ascending: &[Message], after: Option<&str>) -> (r: Option<String>)
    ensures
        opt_string_view(r) == cursor_after(sorted_ascending@, opt_str_view(after)),
{
    let n = sorted_ascending.len();
    if n > 0 {
        Some(sorted_ascending[n - 1].id.clone())
    } else {
        match after {
            Some(a) => Some(a.to_owned()),
            None => None,
        }
    }
}

} // verus!

//! Compatibility wrapper for consumers that already own a shared-looking flag.
//!
//! New CLIs should prefer the canonical shared spellings directly. Existing
//! CLIs sometimes predate this crate and may already assign one of the
//! compatibility aliases (for example `--quiet`) to domain behavior. Those
//! spellings must remain visible to the downstream parser until the consumer
//! deliberately migrates them.
use vstd::prelude::*;
use vstd::string::StringExecFns;

use crate::args::{
    arg_finish, arg_run, arg_step, initial_arg_state, lemma_arg_run_take_step, ArgParseState, lemma_arg_run_terminated, lemma_dashless_token_is_unrelated,
    lemma_passthrough_from_tokens, lemma_passthrough_grows, parse_shared_argv,
    parse_shared_argv_keeping_terminator, parsed_outcome, shared_argv_outcome, string_views,
    terminates_at, terminator_kept_outcome, token_meaning, token_views, ParsedSharedArgs,
    SharedArgError, SharedArgFailure,
};
use crate::policy::CliPolicy;
use crate::text::{append_decimal, decimal_digits, digit_char, owned, str_equals};

verus! {

/// Prefix of the placeholder that hides a reserved token from the shared
/// parser. Process argv cannot contain NUL, so it cannot collide with a real
/// command-line token.
pub open spec fn sentinel_prefix() -> Seq<char> {
    "\u{0}ores-clis-core-reserved:"@
}

/// Placeholder for the reserved token at position `i`.
pub open spec fn sentinel(i: nat) -> Seq<char> {
    sentinel_prefix() + decimal_digits(i)
}

/// The reservations in effect: every listed token except `--`.
pub open spec fn reserved_set(reserved: Seq<Seq<char>>) -> Set<Seq<char>> {
    Set::new(|t: Seq<char>| reserved.contains(t) && t != "--"@)
}

/// `tokens` with each reserved token replaced by its placeholder.
pub open spec fn protect(tokens: Seq<Seq<char>>, rs: Set<Seq<char>>) -> Seq<Seq<char>> {
    Seq::new(
        tokens.len(),
        |i: int|
            if rs.contains(tokens[i]) {
                sentinel(i as nat)
            } else {
                tokens[i]
            },
    )
}

/// Whether `t` is the placeholder of a reserved position not yet restored.
pub open spec fn is_open_placeholder(
    t: Seq<char>,
    tokens: Seq<Seq<char>>,
    rs: Set<Seq<char>>,
    done: Set<int>,
    i: int,
) -> bool {
    0 <= i < tokens.len() && rs.contains(tokens[i]) && !done.contains(i) && t == sentinel(i as nat)
}

/// Passthrough with each placeholder replaced, once, by the token it hid.
pub open spec fn restore_from(
    pass: Seq<Seq<char>>,
    tokens: Seq<Seq<char>>,
    rs: Set<Seq<char>>,
    done: Set<int>,
) -> Seq<Seq<char>>
    decreases pass.len(),
{
    if pass.len() == 0 {
        pass
    } else {
        let t = pass[0];
        if exists|i: int| is_open_placeholder(t, tokens, rs, done, i) {
            let i = choose|i: int| is_open_placeholder(t, tokens, rs, done, i);
            seq![tokens[i]] + restore_from(pass.drop_first(), tokens, rs, done.insert(i))
        } else {
            seq![t] + restore_from(pass.drop_first(), tokens, rs, done)
        }
    }
}

/// Whether the terminator that ends shared parsing is kept for the consumer:
/// `--` is listed together with at least one token that is really reserved.
/// Listed alone, `--` is ignored, as it can never be reserved.
pub open spec fn keeps_terminator(reserved: Seq<Seq<char>>) -> bool {
    reserved.contains("--"@) && reserved_set(reserved) != Set::<Seq<char>>::empty()
}

/// What `parse_shared_argv_with_reserved` computes: shared parsing of the
/// tokens with reserved ones hidden, the hidden ones restored in the
/// passthrough, and, when `--` is listed beside a real reservation, the
/// terminator kept there too.
pub open spec fn reserved_argv_outcome(tokens: Seq<Seq<char>>, reserved: Seq<Seq<char>>) -> Result<
    (CliPolicy, Seq<Seq<char>>),
    SharedArgFailure,
> {
    let rs = reserved_set(reserved);
    let parsed = if keeps_terminator(reserved) {
        terminator_kept_outcome(protect(tokens, rs))
    } else {
        shared_argv_outcome(protect(tokens, rs))
    };
    match parsed {
        Ok((policy, pass)) => Ok((policy, restore_from(pass, tokens, rs, Set::empty()))),
        Err(e) => Err(e),
    }
}

proof fn lemma_digit_char_injective(a: nat, b: nat)
    requires
        a < 10,
        b < 10,
        digit_char(a) == digit_char(b),
    ensures
        a == b,
{
}

proof fn lemma_decimal_len(n: nat)
    ensures
        n < 10 ==> decimal_digits(n).len() == 1,
        n >= 10 ==> decimal_digits(n).len() >= 2,
    decreases n,
{
    if n >= 10 {
        lemma_decimal_len(n / 10);
    }
}

/// Distinct numbers have distinct decimal spellings.
pub proof fn lemma_decimal_injective(a: nat, b: nat)
    requires
        decimal_digits(a) == decimal_digits(b),
    ensures
        a == b,
    decreases a,
{
    lemma_decimal_len(a);
    lemma_decimal_len(b);
    if a < 10 && b < 10 {
        assert(decimal_digits(a) == seq![digit_char(a)]);
        assert(decimal_digits(b) == seq![digit_char(b)]);
        assert(seq![digit_char(a)][0] == digit_char(a));
        assert(seq![digit_char(b)][0] == digit_char(b));
        assert(decimal_digits(a)[0] == decimal_digits(b)[0]);
        lemma_digit_char_injective(a, b);
    } else if a >= 10 && b >= 10 {
        let da = decimal_digits(a);
        let db = decimal_digits(b);
        assert(da.last() == db.last());
        lemma_digit_char_injective(a % 10, b % 10);
        assert(da.drop_last() =~= decimal_digits(a / 10));
        assert(db.drop_last() =~= decimal_digits(b / 10));
        lemma_decimal_injective(a / 10, b / 10);
    }
}

/// Placeholders of distinct positions differ.
pub proof fn lemma_sentinel_injective(a: nat, b: nat)
    requires
        sentinel(a) == sentinel(b),
    ensures
        a == b,
{
    let p = sentinel_prefix();
    assert(sentinel(a).skip(p.len() as int) =~= decimal_digits(a));
    assert(sentinel(b).skip(p.len() as int) =~= decimal_digits(b));
    lemma_decimal_injective(a, b);
}

proof fn lemma_restore_without_reservations(
    pass: Seq<Seq<char>>,
    tokens: Seq<Seq<char>>,
    rs: Set<Seq<char>>,
    done: Set<int>,
)
    requires
        rs =~= Set::<Seq<char>>::empty(),
    ensures
        restore_from(pass, tokens, rs, done) == pass,
    decreases pass.len(),
{
    if pass.len() > 0 {
        lemma_restore_without_reservations(pass.drop_first(), tokens, rs, done);
        assert(seq![pass[0]] + pass.drop_first() =~= pass);
    }
}

proof fn lemma_protect_without_reservations(tokens: Seq<Seq<char>>, rs: Set<Seq<char>>)
    requires
        rs =~= Set::<Seq<char>>::empty(),
    ensures
        protect(tokens, rs) == tokens,
{
    assert(protect(tokens, rs) =~= tokens);
}

/// Restoring placeholders one passthrough token at a time.
proof fn lemma_restore_step(
    pass: Seq<Seq<char>>,
    k: int,
    tokens: Seq<Seq<char>>,
    rs: Set<Seq<char>>,
    done: Set<int>,
)
    requires
        0 <= k < pass.len(),
    ensures
        restore_from(pass.skip(k), tokens, rs, done) == ({
            let t = pass[k];
            if exists|i: int| is_open_placeholder(t, tokens, rs, done, i) {
                let i = choose|i: int| is_open_placeholder(t, tokens, rs, done, i);
                seq![tokens[i]] + restore_from(pass.skip(k + 1), tokens, rs, done.insert(i))
            } else {
                seq![t] + restore_from(pass.skip(k + 1), tokens, rs, done)
            }
        }),
{
    assert(pass.skip(k).drop_first() =~= pass.skip(k + 1));
    assert(pass.skip(k)[0] == pass[k]);
}

/// Whether `t` is in the reserved set, by scanning the reservations.
fn is_reserved(reserved: &[&str], t: &str) -> (r: bool)
    ensures
        r == reserved_set(token_views(reserved@)).contains(t@),
{
    proof {
        reveal_strlit("--");
    }
    let ghost rv = token_views(reserved@);
    if str_equals(t, "--") {
        return false;
    }
    let mut j: usize = 0;
    while j < reserved.len()
        invariant
            j <= reserved@.len(),
            rv == token_views(reserved@),
            rv.len() == reserved@.len(),
            forall|k: int| 0 <= k < j ==> rv[k] != t@,
            t@ != "--"@,
        decreases reserved@.len() - j,
    {
        if str_equals(reserved[j], t) {
            proof {
                assert(rv[j as int] == t@);
                assert(rv.contains(t@));
                assert(t@ != "--"@);
                assert(reserved_set(rv).contains(t@));
            }
            return true;
        }
        j += 1;
    }
    false
}

/// Whether `--` is listed among the reservations.
fn lists_terminator(reserved: &[&str]) -> (r: bool)
    ensures
        r == token_views(reserved@).contains("--"@),
{
    let ghost rv = token_views(reserved@);
    let mut j: usize = 0;
    while j < reserved.len()
        invariant
            j <= reserved@.len(),
            rv == token_views(reserved@),
            rv.len() == reserved@.len(),
            forall|k: int| 0 <= k < j ==> rv[k] != "--"@,
        decreases reserved@.len() - j,
    {
        if str_equals(reserved[j], "--") {
            proof {
                assert(rv[j as int] == "--"@);
            }
            return true;
        }
        j += 1;
    }
    false
}

/// Whether some reservation other than `--` is present.
fn has_reservations(reserved: &[&str]) -> (r: bool)
    ensures
        r == !(reserved_set(token_views(reserved@)) =~= Set::<Seq<char>>::empty()),
{
    let ghost rv = token_views(reserved@);
    let mut j: usize = 0;
    while j < reserved.len()
        invariant
            j <= reserved@.len(),
            rv == token_views(reserved@),
            rv.len() == reserved@.len(),
            forall|k: int| 0 <= k < j ==> rv[k] == "--"@,
        decreases reserved@.len() - j,
    {
        if !str_equals(reserved[j], "--") {
            proof {
                assert(reserved_set(rv).contains(rv[j as int]));
            }
            return true;
        }
        j += 1;
    }
    proof {
        assert forall|t: Seq<char>| !reserved_set(rv).contains(t) by {
            if rv.contains(t) {
                let k = choose|k: int| 0 <= k < rv.len() && rv[k] == t;
                assert(rv[k] == "--"@);
            }
        }
    }
    false
}

/// The placeholder string for position `i`.
fn sentinel_string(i: usize) -> (r: String)
    ensures
        r@ == sentinel(i as nat),
{
    let mut r = String::from_str("\u{0}ores-clis-core-reserved:");
    append_decimal(&mut r, i);
    r
}

/// Parse shared runtime flags while preserving selected exact argv spellings
/// for the consumer parser.
///
/// `reserved` matches complete tokens only. A reserved `--quiet` therefore
/// protects `--quiet` but does not reserve unrelated tokens. The `--`
/// terminator itself can never be reserved: listed alone it is ignored, and
/// listed beside a real reservation it still ends shared parsing, and is kept
/// in the passthrough at its place for the consumer parser.
///
/// This API is intended for compatibility collisions, not for redefining the
/// canonical shared policy. Prefer the explicit forms such as
/// `--log-level=quiet` when a consumer reserves a shorthand alias.
pub fn parse_shared_argv_with_reserved(tokens: &[&str], reserved: &[&str]) -> (r: Result<
    ParsedSharedArgs,
    SharedArgError,
>)
    ensures
        parsed_outcome(r) == reserved_argv_outcome(token_views(tokens@), token_views(reserved@)),
{
    let ghost tv = token_views(tokens@);
    let ghost rs = reserved_set(token_views(reserved@));
    if !has_reservations(reserved) {
        proof {
            lemma_protect_without_reservations(tv, rs);
        }
        let r = parse_shared_argv(tokens);
        proof {
            if r is Ok {
                let p = r->Ok_0;
                lemma_restore_without_reservations(
                    string_views(p.passthrough@),
                    tv,
                    rs,
                    Set::empty(),
                );
            }
        }
        return r;
    }
    // Placeholders, in token order, with the positions and tokens they hide.
    let mut protected: Vec<String> = Vec::new();
    let mut hidden_at: Vec<usize> = Vec::new();
    let mut hidden_key: Vec<String> = Vec::new();
    let mut hidden_token: Vec<String> = Vec::new();
    let mut index: usize = 0;
    while index < tokens.len()
        invariant
            index <= tokens@.len(),
            tv == token_views(tokens@),
            tv.len() == tokens@.len(),
            rs == reserved_set(token_views(reserved@)),
            string_views(protected@) == protect(tv, rs).take(index as int),
            hidden_at@.len() == hidden_key@.len() == hidden_token@.len(),
            forall|j: int, k: int|
                0 <= j < k < hidden_at@.len() ==> #[trigger] hidden_at@[j] < #[trigger] hidden_at@[k],
            forall|j: int|
                0 <= j < hidden_at@.len() ==> {
                    &&& (#[trigger] hidden_at@[j]) < index
                    &&& rs.contains(tv[hidden_at@[j] as int])
                    &&& hidden_key@[j]@ == sentinel(hidden_at@[j] as nat)
                    &&& hidden_token@[j]@ == tv[hidden_at@[j] as int]
                },
            forall|i: int|
                0 <= i < index && rs.contains(tv[i]) ==> exists|j: int|
                    0 <= j < hidden_at@.len() && #[trigger] hidden_at@[j] == i,
        decreases tokens@.len() - index,
    {
        let token = tokens[index];
        proof {
            assert(tv[index as int] == token@);
        }
        let ghost before = protected@;
        let ghost before_at = hidden_at@;
        if is_reserved(reserved, token) {
            let key = sentinel_string(index);
            protected.push(sentinel_string(index));
            hidden_at.push(index);
            hidden_key.push(key);
            hidden_token.push(owned(token));
            proof {
                assert(hidden_at@[hidden_at@.len() - 1] == index);
            }
        } else {
            protected.push(owned(token));
        }
        proof {
            assert(protected@.drop_last() =~= before);
            assert(string_views(protected@) =~= string_views(before).push(protected@.last()@));
            assert(protect(tv, rs).take(index + 1) =~= protect(tv, rs).take(index as int).push(
                protect(tv, rs)[index as int],
            ));
            assert forall|i: int|
                0 <= i < index + 1 && rs.contains(tv[i]) implies exists|j: int|
                0 <= j < hidden_at@.len() && #[trigger] hidden_at@[j] == i by {
                if i < index {
                    let j = choose|j: int| 0 <= j < before_at.len() && #[trigger] before_at[j] == i;
                    assert(hidden_at@[j] == before_at[j]);
                } else {
                    assert(hidden_at@[hidden_at@.len() - 1] == i);
                }
            }
        }
        index += 1;
    }
    proof {
        assert(protect(tv, rs).take(index as int) =~= protect(tv, rs));
    }
    let mut refs: Vec<&str> = Vec::new();
    let mut k: usize = 0;
    while k < protected.len()
        invariant
            k <= protected@.len(),
            token_views(refs@) == string_views(protected@).take(k as int),
        decreases protected@.len() - k,
    {
        let ghost before = refs@;
        refs.push(protected[k].as_str());
        proof {
            assert(refs@.drop_last() =~= before);
            assert(token_views(refs@) =~= token_views(before).push(refs@.last()@));
            assert(string_views(protected@).take(k + 1) =~= string_views(protected@).take(
                k as int,
            ).push(protected@[k as int]@));
        }
        k += 1;
    }
    proof {
        assert(string_views(protected@).take(k as int) =~= string_views(protected@));
    }
    let keep_terminator = lists_terminator(reserved);
    let outcome = if keep_terminator {
        parse_shared_argv_keeping_terminator(refs.as_slice())
    } else {
        parse_shared_argv(refs.as_slice())
    };
    let parsed = match outcome {
        Ok(parsed) => parsed,
        Err(e) => {
            return Err(e);
        },
    };
    let ghost pass = string_views(parsed.passthrough@);
    let mut used: Vec<bool> = Vec::new();
    let mut u: usize = 0;
    while u < hidden_at.len()
        invariant
            u <= hidden_at@.len(),
            used@.len() == u,
            forall|j: int| 0 <= j < u ==> !used@[j],
        decreases hidden_at@.len() - u,
    {
        used.push(false);
        u += 1;
    }
    let mut restored: Vec<String> = Vec::new();
    let mut p: usize = 0;
    let ghost mut done: Set<int> = Set::empty();
    proof {
        assert(pass.skip(0) =~= pass);
        assert(string_views(restored@) =~= Seq::<Seq<char>>::empty());
        assert(Seq::<Seq<char>>::empty() + restore_from(pass, tv, rs, done) =~= restore_from(
            pass,
            tv,
            rs,
            done,
        ));
    }
    while p < parsed.passthrough.len()
        invariant
            p <= parsed.passthrough@.len(),
            pass == string_views(parsed.passthrough@),
            tv == token_views(tokens@),
            tv.len() == tokens@.len(),
            hidden_at@.len() == hidden_key@.len() == hidden_token@.len() == used@.len(),
            forall|j: int, k: int|
                0 <= j < k < hidden_at@.len() ==> #[trigger] hidden_at@[j] < #[trigger] hidden_at@[k],
            forall|j: int|
                0 <= j < hidden_at@.len() ==> {
                    &&& (#[trigger] hidden_at@[j]) < tv.len()
                    &&& rs.contains(tv[hidden_at@[j] as int])
                    &&& hidden_key@[j]@ == sentinel(hidden_at@[j] as nat)
                    &&& hidden_token@[j]@ == tv[hidden_at@[j] as int]
                    &&& used@[j] == done.contains(hidden_at@[j] as int)
                },
            forall|i: int|
                0 <= i < tv.len() && rs.contains(tv[i]) ==> exists|j: int|
                    0 <= j < hidden_at@.len() && #[trigger] hidden_at@[j] == i,
            string_views(restored@) + restore_from(pass.skip(p as int), tv, rs, done)
                == restore_from(pass, tv, rs, Set::empty()),
        decreases parsed.passthrough@.len() - p,
    {
        let t = parsed.passthrough[p].as_str();
        proof {
            lemma_restore_step(pass, p as int, tv, rs, done);
            assert(pass[p as int] == t@);
        }
        let mut found: usize = hidden_at.len();
        let mut j: usize = 0;
        while j < hidden_at.len()
            invariant
                j <= hidden_at@.len(),
                hidden_at@.len() == hidden_key@.len() == used@.len(),
                found == hidden_at@.len() ==> forall|m: int|
                    0 <= m < j ==> used@[m] || #[trigger] hidden_key@[m]@ != t@,
                found < hidden_at@.len() ==> !used@[found as int] && hidden_key@[found as int]@
                    == t@,
                found <= hidden_at@.len(),
            decreases hidden_at@.len() - j,
        {
            if found == hidden_at.len() && !used[j] && str_equals(hidden_key[j].as_str(), t) {
                found = j;
            }
            j += 1;
        }
        let ghost before = restored@;
        if found < hidden_at.len() {
            let ghost i = hidden_at@[found as int] as int;
            proof {
                assert(is_open_placeholder(t@, tv, rs, done, i));
                let c = choose|c: int| is_open_placeholder(t@, tv, rs, done, c);
                lemma_sentinel_injective(c as nat, i as nat);
            }
            restored.push(hidden_token[found].clone());
            used.set(found, true);
            proof {
                done = done.insert(i);
                assert forall|m: int| 0 <= m < hidden_at@.len() implies used@[m] == done.contains(
                    #[trigger] hidden_at@[m] as int,
                ) by {
                    if m < found as int {
                        assert(hidden_at@[m] < hidden_at@[found as int]);
                    } else if m > found as int {
                        assert(hidden_at@[found as int] < hidden_at@[m]);
                    }
                }
            }
        } else {
            proof {
                assert forall|i: int| !is_open_placeholder(t@, tv, rs, done, i) by {
                    if is_open_placeholder(t@, tv, rs, done, i) {
                        let m = choose|m: int| 0 <= m < hidden_at@.len() && #[trigger] hidden_at@[m] == i;
                        assert(!used@[m]);
                        assert(hidden_key@[m]@ == t@);
                    }
                }
            }
            restored.push(owned(t));
        }
        proof {
            assert(restored@.drop_last() =~= before);
            assert(string_views(restored@) =~= string_views(before) + seq![restored@.last()@]);
        }
        p += 1;
    }
    proof {
        assert(pass.skip(p as int) =~= Seq::<Seq<char>>::empty());
        assert(string_views(restored@) + Seq::<Seq<char>>::empty() =~= string_views(restored@));
    }
    Ok(ParsedSharedArgs { policy: parsed.policy, passthrough: restored })
}

/// Without an effective reservation (none, or only `--`, which can never be
/// reserved) the compatibility parser is exactly the plain shared parser.
pub proof fn law_no_reservation_is_plain_parse(tokens: Seq<Seq<char>>, reserved: Seq<Seq<char>>)
    requires
        forall|i: int| 0 <= i < reserved.len() ==> reserved[i] == "--"@,
    ensures
        reserved_argv_outcome(tokens, reserved) == shared_argv_outcome(tokens),
{
    let rs = reserved_set(reserved);
    assert forall|t: Seq<char>| !rs.contains(t) by {
        if reserved.contains(t) {
            let k = choose|k: int| 0 <= k < reserved.len() && reserved[k] == t;
        }
    }
    assert(rs =~= Set::<Seq<char>>::empty());
    lemma_protect_without_reservations(tokens, rs);
    if let Ok((policy, pass)) = shared_argv_outcome(tokens) {
        lemma_restore_without_reservations(pass, tokens, rs, Set::empty());
    }
}

proof fn lemma_sentinel_starts_with_nul(i: nat)
    ensures
        sentinel(i).len() > 0,
        sentinel(i)[0] == '\u{0}',
        sentinel(i).contains('\u{0}'),
{
    reveal_strlit("\u{0}ores-clis-core-reserved:");
    assert(sentinel(i)[0] == sentinel_prefix()[0]);
}

proof fn lemma_restore_len(
    pass: Seq<Seq<char>>,
    tokens: Seq<Seq<char>>,
    rs: Set<Seq<char>>,
    done: Set<int>,
)
    ensures
        restore_from(pass, tokens, rs, done).len() == pass.len(),
    decreases pass.len(),
{
    if pass.len() > 0 {
        let t = pass[0];
        if exists|i: int| is_open_placeholder(t, tokens, rs, done, i) {
            let i = choose|i: int| is_open_placeholder(t, tokens, rs, done, i);
            lemma_restore_len(pass.drop_first(), tokens, rs, done.insert(i));
        } else {
            lemma_restore_len(pass.drop_first(), tokens, rs, done);
        }
    }
}

/// The first occurrence of a reserved position's placeholder is restored to
/// the token it hides.
proof fn lemma_restore_at(
    pass: Seq<Seq<char>>,
    tokens: Seq<Seq<char>>,
    rs: Set<Seq<char>>,
    done: Set<int>,
    m: int,
    i: int,
)
    requires
        0 <= m < pass.len(),
        0 <= i < tokens.len(),
        rs.contains(tokens[i]),
        !done.contains(i),
        pass[m] == sentinel(i as nat),
        forall|j: int| 0 <= j < m ==> pass[j] != sentinel(i as nat),
    ensures
        restore_from(pass, tokens, rs, done).len() == pass.len(),
        restore_from(pass, tokens, rs, done)[m] == tokens[i],
    decreases m,
{
    lemma_restore_len(pass, tokens, rs, done);
    let t = pass[0];
    let rest = pass.drop_first();
    if m == 0 {
        assert(is_open_placeholder(t, tokens, rs, done, i));
        let c = choose|c: int| is_open_placeholder(t, tokens, rs, done, c);
        lemma_sentinel_injective(c as nat, i as nat);
        let out = seq![tokens[c]] + restore_from(rest, tokens, rs, done.insert(c));
        assert(restore_from(pass, tokens, rs, done) == out);
        assert(out[0] == tokens[c]);
    } else {
        assert forall|j: int| 0 <= j < m - 1 implies rest[j] != sentinel(i as nat) by {
            assert(rest[j] == pass[j + 1]);
        }
        assert(rest[m - 1] == pass[m]);
        if exists|c: int| is_open_placeholder(t, tokens, rs, done, c) {
            let c = choose|c: int| is_open_placeholder(t, tokens, rs, done, c);
            assert(c != i);
            lemma_restore_at(rest, tokens, rs, done.insert(c), m - 1, i);
            let out = seq![tokens[c]] + restore_from(rest, tokens, rs, done.insert(c));
            assert(restore_from(pass, tokens, rs, done) == out);
            assert(out[m] == restore_from(rest, tokens, rs, done.insert(c))[m - 1]);
        } else {
            lemma_restore_at(rest, tokens, rs, done, m - 1, i);
            let out = seq![t] + restore_from(rest, tokens, rs, done);
            assert(restore_from(pass, tokens, rs, done) == out);
            assert(out[m] == restore_from(rest, tokens, rs, done)[m - 1]);
        }
    }
}

/// In the shared parse of the protected tokens, the placeholder of a reserved
/// token standing where a flag is expected is kept at the place an unrelated
/// argument would take, and nowhere before it.
proof fn lemma_placeholder_kept(tokens: Seq<Seq<char>>, rs: Set<Seq<char>>, i: int)
    requires
        0 <= i < tokens.len(),
        rs.contains(tokens[i]),
        forall|q: int| 0 <= q < tokens.len() ==> !(#[trigger] tokens[q]).contains('\u{0}'),
        arg_run(protect(tokens, rs).take(i)).is_open(),
    ensures
        ({
            let p = protect(tokens, rs);
            let m = arg_run(p.take(i)).passthrough.len() as int;
            let full = arg_run(p).passthrough;
            &&& m < arg_run(p.take(i + 1)).passthrough.len() <= full.len()
            &&& full[m] == sentinel(i as nat)
            &&& forall|j: int| 0 <= j < m ==> full[j] != sentinel(i as nat)
        }),
{
    let p = protect(tokens, rs);
    let st = arg_run(p.take(i));
    let m = st.passthrough.len() as int;
    lemma_sentinel_starts_with_nul(i as nat);
    assert(p[i] == sentinel(i as nat));
    lemma_dashless_token_is_unrelated(p[i]);
    lemma_arg_run_take_step(p, i);
    assert(arg_run(p.take(i + 1)).passthrough == st.passthrough.push(sentinel(i as nat)));
    assert(p.take(p.len() as int) =~= p);
    lemma_passthrough_grows(p, i + 1, p.len() as int);
    let full = arg_run(p).passthrough;
    assert(full.take(m + 1) == st.passthrough.push(sentinel(i as nat)));
    assert(full[m] == full.take(m + 1)[m]);
    assert forall|j: int| 0 <= j < m implies full[j] != sentinel(i as nat) by {
        assert(full[j] == full.take(m + 1)[j]);
        assert(full[j] == st.passthrough[j]);
        lemma_passthrough_from_tokens(p, i, j);
        let q = choose|q: int| 0 <= q < i && st.passthrough[j] == p[q];
        if rs.contains(tokens[q]) {
            if p[q] == sentinel(i as nat) {
                lemma_sentinel_injective(q as nat, i as nat);
            }
        } else {
            assert(p[q] == tokens[q]);
            assert(!tokens[q].contains('\u{0}'));
        }
    }
}

/// Keeping the terminator inserts it after every token kept before it, so
/// positions in front of the terminator do not move.
proof fn lemma_kept_terminator_is_later(p: Seq<Seq<char>>, i: int)
    requires
        0 <= i < p.len(),
        arg_run(p.take(i)).is_open(),
        !(token_meaning(p[i]) is Terminator),
        exists|k: int| terminates_at(p, k),
    ensures
        ({
            let k = choose|k: int| terminates_at(p, k);
            arg_run(p.take(i + 1)).passthrough.len() <= arg_run(p.take(k)).passthrough.len()
        }),
{
    let k = choose|k: int| terminates_at(p, k);
    assert(k > i) by {
        if k < i {
            lemma_arg_run_take_step(p, k);
            lemma_arg_run_terminated(p, k + 1, i);
        }
    }
    lemma_passthrough_grows(p, i + 1, k);
}

/// A reserved token standing where the shared parser expects a flag (between
/// flags, before any terminator, with no failure so far) reaches the consumer
/// verbatim, at the place an unrelated argument there would have taken.
///
/// Real argv never contains NUL; the statement is made for such tokens, which
/// cannot collide with a placeholder.
pub proof fn law_reserved_token_reaches_consumer(
    tokens: Seq<Seq<char>>,
    reserved: Seq<Seq<char>>,
    i: int,
)
    requires
        0 <= i < tokens.len(),
        reserved_set(reserved).contains(tokens[i]),
        forall|q: int| 0 <= q < tokens.len() ==> !(#[trigger] tokens[q]).contains('\u{0}'),
        arg_run(protect(tokens, reserved_set(reserved)).take(i)).is_open(),
    ensures
        reserved_argv_outcome(tokens, reserved) matches Ok((_, pass)) ==> {
            let m = arg_run(protect(tokens, reserved_set(reserved)).take(i)).passthrough.len();
            m < pass.len() && pass[m as int] == tokens[i]
        },
{
    let rs = reserved_set(reserved);
    let p = protect(tokens, rs);
    let m = arg_run(p.take(i)).passthrough.len() as int;
    lemma_placeholder_kept(tokens, rs, i);
    let full = arg_run(p).passthrough;
    let parsed = if keeps_terminator(reserved) {
        terminator_kept_outcome(p)
    } else {
        shared_argv_outcome(p)
    };
    if let Ok((policy, pass)) = parsed {
        assert(shared_argv_outcome(p) is Ok);
        assert(shared_argv_outcome(p) == Ok::<(CliPolicy, Seq<Seq<char>>), SharedArgFailure>((policy, full)));
        if keeps_terminator(reserved) && exists|k: int| terminates_at(p, k) {
            lemma_sentinel_starts_with_nul(i as nat);
            lemma_dashless_token_is_unrelated(p[i]);
            lemma_kept_terminator_is_later(p, i);
            let k = choose|k: int| terminates_at(p, k);
            lemma_passthrough_grows(p, k, p.len() as int);
            assert(p.take(p.len() as int) =~= p);
            let mk = arg_run(p.take(k)).passthrough.len() as int;
            assert(pass == full.take(mk) + seq!["--"@] + full.skip(mk));
            assert forall|j: int| 0 <= j <= m implies pass[j] == full[j] by {
                assert(pass[j] == full.take(mk)[j]);
            }
            assert forall|j: int| 0 <= j < m implies pass[j] != sentinel(i as nat) by {
                assert(pass[j] == full[j]);
            }
        } else {
            assert(pass == full);
        }
        lemma_restore_at(pass, tokens, rs, Set::empty(), m, i);
    }
}

proof fn lemma_restore_without_hidden_tokens(
    pass: Seq<Seq<char>>,
    tokens: Seq<Seq<char>>,
    rs: Set<Seq<char>>,
    done: Set<int>,
)
    requires
        forall|i: int| 0 <= i < tokens.len() ==> !rs.contains(#[trigger] tokens[i]),
    ensures
        restore_from(pass, tokens, rs, done) == pass,
    decreases pass.len(),
{
    if pass.len() > 0 {
        lemma_restore_without_hidden_tokens(pass.drop_first(), tokens, rs, done);
        assert(seq![pass[0]] + pass.drop_first() =~= pass);
    }
}

/// Reservations that none of the tokens uses change nothing: the
/// compatibility parser then agrees with the plain shared parser (unless
/// `--` is kept for the consumer, which the plain parser drops).
pub proof fn law_unused_reservations_parse_plainly(tokens: Seq<Seq<char>>, reserved: Seq<Seq<char>>)
    requires
        forall|i: int| 0 <= i < tokens.len() ==> !reserved_set(reserved).contains(#[trigger] tokens[i]),
        !keeps_terminator(reserved),
    ensures
        reserved_argv_outcome(tokens, reserved) == shared_argv_outcome(tokens),
{
    let rs = reserved_set(reserved);
    assert(protect(tokens, rs) =~= tokens);
    if let Ok((policy, pass)) = shared_argv_outcome(tokens) {
        lemma_restore_without_hidden_tokens(pass, tokens, rs, Set::empty());
    }
}

/// One step of the shared parser in which the tokens of `rs` are ordinary
/// arguments wherever a flag is expected.
pub open spec fn ordinary_step(rs: Set<Seq<char>>, st: ArgParseState, t: Seq<char>) -> ArgParseState {
    if rs.contains(t) && st.failure is None && st.pending is None {
        ArgParseState { passthrough: st.passthrough.push(t), ..st }
    } else {
        arg_step(st, t)
    }
}

/// The parser state after `tokens`, the tokens of `rs` being ordinary
/// arguments wherever a flag is expected.
pub open spec fn ordinary_run(rs: Set<Seq<char>>, tokens: Seq<Seq<char>>) -> ArgParseState
    decreases tokens.len(),
{
    if tokens.len() == 0 {
        initial_arg_state()
    } else {
        ordinary_step(rs, ordinary_run(rs, tokens.drop_last()), tokens.last())
    }
}

/// Whether `t` is the placeholder that hides position `q`.
pub open spec fn hides(t: Seq<char>, tokens: Seq<Seq<char>>, rs: Set<Seq<char>>, q: int) -> bool {
    0 <= q < tokens.len() && rs.contains(tokens[q]) && t == sentinel(q as nat)
}

/// `t`, or the token it hides when it is a placeholder.
pub open spec fn unhide(t: Seq<char>, tokens: Seq<Seq<char>>, rs: Set<Seq<char>>) -> Seq<char> {
    if exists|q: int| #[trigger] hides(t, tokens, rs, q) {
        tokens[choose|q: int| #[trigger] hides(t, tokens, rs, q)]
    } else {
        t
    }
}

proof fn lemma_unhide_sentinel(tokens: Seq<Seq<char>>, rs: Set<Seq<char>>, q: int)
    requires
        0 <= q < tokens.len(),
        rs.contains(tokens[q]),
    ensures
        unhide(sentinel(q as nat), tokens, rs) == tokens[q],
{
    assert(hides(sentinel(q as nat), tokens, rs, q));
    let c = choose|c: int| #[trigger] hides(sentinel(q as nat), tokens, rs, c);
    lemma_sentinel_injective(c as nat, q as nat);
}

proof fn lemma_restore_unhides(
    pass: Seq<Seq<char>>,
    tokens: Seq<Seq<char>>,
    rs: Set<Seq<char>>,
    done: Set<int>,
)
    requires
        forall|n1: int, n2: int, q: int|
            0 <= n1 < n2 < pass.len() && #[trigger] hides(pass[n1], tokens, rs, q) ==> !#[trigger] hides(
                pass[n2],
                tokens,
                rs,
                q,
            ),
        forall|n: int, q: int|
            0 <= n < pass.len() && #[trigger] hides(pass[n], tokens, rs, q) ==> !done.contains(q),
    ensures
        restore_from(pass, tokens, rs, done) == pass.map_values(|t: Seq<char>| unhide(t, tokens, rs)),
    decreases pass.len(),
{
    let f = |t: Seq<char>| unhide(t, tokens, rs);
    if pass.len() == 0 {
        assert(pass.map_values(f) =~= pass);
    } else {
        let t = pass[0];
        let rest = pass.drop_first();
        assert forall|n1: int, n2: int, q: int|
            0 <= n1 < n2 < rest.len() && #[trigger] hides(rest[n1], tokens, rs, q) implies !#[trigger] hides(
                rest[n2],
                tokens,
                rs,
                q,
            ) by {
            assert(rest[n1] == pass[n1 + 1] && rest[n2] == pass[n2 + 1]);
        }
        if exists|q: int| is_open_placeholder(t, tokens, rs, done, q) {
            let q = choose|q: int| is_open_placeholder(t, tokens, rs, done, q);
            assert(hides(t, tokens, rs, q));
            assert forall|n: int, c: int|
                0 <= n < rest.len() && #[trigger] hides(rest[n], tokens, rs, c) implies !done.insert(
                q,
            ).contains(c) by {
                assert(rest[n] == pass[n + 1]);
                if c == q {
                    assert(hides(pass[0], tokens, rs, q));
                }
            }
            lemma_restore_unhides(rest, tokens, rs, done.insert(q));
            lemma_unhide_sentinel(tokens, rs, q);
            assert(restore_from(pass, tokens, rs, done) == seq![tokens[q]] + restore_from(
                rest,
                tokens,
                rs,
                done.insert(q),
            ));
        } else {
            assert(!exists|q: int| #[trigger] hides(t, tokens, rs, q)) by {
                if exists|q: int| #[trigger] hides(t, tokens, rs, q) {
                    let q = choose|q: int| #[trigger] hides(t, tokens, rs, q);
                    assert(hides(pass[0], tokens, rs, q));
                    assert(is_open_placeholder(t, tokens, rs, done, q));
                }
            }
            lemma_restore_unhides(rest, tokens, rs, done);
            assert(restore_from(pass, tokens, rs, done) == seq![t] + restore_from(
                rest,
                tokens,
                rs,
                done,
            ));
        }
        assert(restore_from(pass, tokens, rs, done) =~= pass.map_values(f));
    }
}

/// How the protected parse relates to the ordinary one after `j` tokens:
/// the same state but for the passthrough, whose placeholders unhide to the
/// ordinary passthrough, each hiding a distinct earlier position.
pub open spec fn runs_correspond(
    sp: ArgParseState,
    so: ArgParseState,
    tokens: Seq<Seq<char>>,
    rs: Set<Seq<char>>,
    j: int,
) -> bool {
    &&& ArgParseState { passthrough: so.passthrough, ..sp } == so
    &&& sp.passthrough.len() == so.passthrough.len()
    &&& forall|n: int|
        0 <= n < sp.passthrough.len() ==> #[trigger] unhide(sp.passthrough[n], tokens, rs)
            == so.passthrough[n]
    &&& forall|n1: int, n2: int, q: int|
        0 <= n1 < n2 < sp.passthrough.len() && #[trigger] hides(sp.passthrough[n1], tokens, rs, q)
            ==> !#[trigger] hides(sp.passthrough[n2], tokens, rs, q)
    &&& forall|n: int, q: int|
        0 <= n < sp.passthrough.len() && #[trigger] hides(sp.passthrough[n], tokens, rs, q) ==> q < j
}

proof fn lemma_runs_correspond(tokens: Seq<Seq<char>>, rs: Set<Seq<char>>, j: int)
    requires
        0 <= j <= tokens.len(),
        forall|q: int| 0 <= q < tokens.len() ==> !(#[trigger] tokens[q]).contains('\u{0}'),
        forall|q: int|
            0 <= q < tokens.len() && rs.contains(#[trigger] tokens[q]) ==> ordinary_run(
                rs,
                tokens.take(q),
            ).pending is None,
    ensures
        runs_correspond(
            arg_run(protect(tokens, rs).take(j)),
            ordinary_run(rs, tokens.take(j)),
            tokens,
            rs,
            j,
        ),
    decreases j,
{
    let p = protect(tokens, rs);
    if j == 0 {
        assert(p.take(0) =~= Seq::<Seq<char>>::empty());
        assert(tokens.take(0) =~= Seq::<Seq<char>>::empty());
    } else {
        let k = j - 1;
        lemma_runs_correspond(tokens, rs, k);
        lemma_arg_run_take_step(p, k);
        assert(tokens.take(j).drop_last() =~= tokens.take(k));
        assert(tokens.take(j).last() == tokens[k]);
        let sp = arg_run(p.take(k));
        let so = ordinary_run(rs, tokens.take(k));
        let t = tokens[k];
        let sp2 = arg_run(p.take(j));
        let so2 = ordinary_run(rs, tokens.take(j));
        assert(so2 == ordinary_step(rs, so, t));
        if rs.contains(t) {
            lemma_sentinel_starts_with_nul(k as nat);
            assert(p[k] == sentinel(k as nat));
            lemma_dashless_token_is_unrelated(p[k]);
            lemma_unhide_sentinel(tokens, rs, k);
            if so.failure is None {
                assert(sp2.passthrough == sp.passthrough.push(sentinel(k as nat)));
                assert(so2.passthrough == so.passthrough.push(t));
                assert forall|n: int, q: int|
                    0 <= n < sp2.passthrough.len() && #[trigger] hides(
                        sp2.passthrough[n],
                        tokens,
                        rs,
                        q,
                    ) implies q < j by {
                    if n == sp.passthrough.len() {
                        lemma_sentinel_injective(q as nat, k as nat);
                    } else {
                        assert(sp2.passthrough[n] == sp.passthrough[n]);
                    }
                }
                assert forall|n1: int, n2: int, q: int|
                    0 <= n1 < n2 < sp2.passthrough.len() && #[trigger] hides(
                        sp2.passthrough[n1],
                        tokens,
                        rs,
                        q,
                    ) implies !#[trigger] hides(sp2.passthrough[n2], tokens, rs, q) by {
                    assert(sp2.passthrough[n1] == sp.passthrough[n1]);
                    if n2 == sp.passthrough.len() {
                        if hides(sp2.passthrough[n2], tokens, rs, q) {
                            lemma_sentinel_injective(q as nat, k as nat);
                        }
                    } else {
                        assert(sp2.passthrough[n2] == sp.passthrough[n2]);
                    }
                }
                assert forall|n: int| 0 <= n < sp2.passthrough.len() implies #[trigger] unhide(
                    sp2.passthrough[n],
                    tokens,
                    rs,
                ) == so2.passthrough[n] by {
                    if n < sp.passthrough.len() {
                        assert(sp2.passthrough[n] == sp.passthrough[n]);
                        assert(so2.passthrough[n] == so.passthrough[n]);
                    }
                }
            }
        } else {
            assert(p[k] == t);
            assert(!t.contains('\u{0}'));
            assert forall|q: int| !hides(t, tokens, rs, q) by {
                if hides(t, tokens, rs, q) {
                    lemma_sentinel_starts_with_nul(q as nat);
                }
            }
            assert(unhide(t, tokens, rs) == t);
            assert(so2 == arg_step(so, t));
            if sp2.passthrough.len() > sp.passthrough.len() {
                assert(sp2.passthrough =~= sp.passthrough.push(t));
                assert(so2.passthrough =~= so.passthrough.push(t));
            } else {
                assert(sp2.passthrough == sp.passthrough);
                assert(so2.passthrough == so.passthrough);
            }
            assert forall|n: int| 0 <= n < sp2.passthrough.len() implies #[trigger] unhide(
                sp2.passthrough[n],
                tokens,
                rs,
            ) == so2.passthrough[n] by {
                if n < sp.passthrough.len() {
                    assert(sp2.passthrough[n] == sp.passthrough[n]);
                    assert(so2.passthrough[n] == so.passthrough[n]);
                }
            }
            assert forall|n1: int, n2: int, q: int|
                0 <= n1 < n2 < sp2.passthrough.len() && #[trigger] hides(
                    sp2.passthrough[n1],
                    tokens,
                    rs,
                    q,
                ) implies !#[trigger] hides(sp2.passthrough[n2], tokens, rs, q) by {
                assert(sp2.passthrough[n1] == sp.passthrough[n1]);
                if n2 < sp.passthrough.len() {
                    assert(sp2.passthrough[n2] == sp.passthrough[n2]);
                }
            }
            assert forall|n: int, q: int|
                0 <= n < sp2.passthrough.len() && #[trigger] hides(
                    sp2.passthrough[n],
                    tokens,
                    rs,
                    q,
                ) implies q < j by {
                if n < sp.passthrough.len() {
                    assert(sp2.passthrough[n] == sp.passthrough[n]);
                }
            }
        }
    }
}

/// Reserved tokens are ordinary arguments to the shared parser: wherever a
/// flag is expected they never set or conflict with the policy and reach
/// the consumer verbatim at their place, and everything else is parsed as
/// the plain shared parser parses it.
///
/// Stated for real argv, which never contains NUL (so no token collides
/// with a placeholder), for reservations that never stand where a flag's
/// value is expected, and where no terminator is kept for the consumer.
pub proof fn law_reserved_tokens_are_ordinary_arguments(
    tokens: Seq<Seq<char>>,
    reserved: Seq<Seq<char>>,
)
    requires
        forall|q: int| 0 <= q < tokens.len() ==> !(#[trigger] tokens[q]).contains('\u{0}'),
        forall|q: int|
            0 <= q < tokens.len() && reserved_set(reserved).contains(#[trigger] tokens[q])
                ==> ordinary_run(reserved_set(reserved), tokens.take(q)).pending is None,
        !keeps_terminator(reserved) || !tokens.contains("--"@),
    ensures
        reserved_argv_outcome(tokens, reserved) == arg_finish(
            ordinary_run(reserved_set(reserved), tokens),
        ),
{
    let rs = reserved_set(reserved);
    let p = protect(tokens, rs);
    lemma_runs_correspond(tokens, rs, tokens.len() as int);
    assert(p.take(p.len() as int) =~= p);
    assert(tokens.take(tokens.len() as int) =~= tokens);
    let sp = arg_run(p);
    let so = ordinary_run(rs, tokens);
    if keeps_terminator(reserved) {
        assert(!exists|k: int| terminates_at(p, k)) by {
            if exists|k: int| terminates_at(p, k) {
                let k = choose|k: int| terminates_at(p, k);
                reveal_strlit("--");
                if rs.contains(tokens[k]) {
                    lemma_sentinel_starts_with_nul(k as nat);
                    lemma_dashless_token_is_unrelated(p[k]);
                } else {
                    assert(p[k] == tokens[k]);
                    assert(tokens[k] == "--"@);
                    assert(tokens.contains("--"@));
                }
            }
        }
    }
    if sp.failure is None && sp.pending is None {
        lemma_restore_unhides(sp.passthrough, tokens, rs, Set::empty());
        assert(sp.passthrough.map_values(|t: Seq<char>| unhide(t, tokens, rs)) =~= so.passthrough);
    }
}

} // verus!

//! Storage paths of the key database: `keys/{identifier}/versions/{version}`
//! holds one immutable key record, `keys/{identifier}/latest` the mutable
//! pointer to the newest version.

use vstd::prelude::*;
use vstd::string::StringExecFns;

verus! {

/// The decimal digit character for `d` (0 to 9).
pub open spec fn spec_dec_digit(d: nat) -> char {
    if d == 0 {
        '0'
    } else if d == 1 {
        '1'
    } else if d == 2 {
        '2'
    } else if d == 3 {
        '3'
    } else if d == 4 {
        '4'
    } else if d == 5 {
        '5'
    } else if d == 6 {
        '6'
    } else if d == 7 {
        '7'
    } else if d == 8 {
        '8'
    } else {
        '9'
    }
}

/// The decimal representation of `v`, most significant digit first, with no
/// leading zeros.
pub open spec fn spec_dec_rep(v: nat) -> Seq<char>
    decreases v,
{
    if v < 10 {
        seq![spec_dec_digit(v)]
    } else {
        spec_dec_rep(v / 10).push(spec_dec_digit(v % 10))
    }
}

/// The path of the immutable record of one key version.
pub open spec fn spec_version_path(id: Seq<char>, version: u64) -> Seq<char> {
    "keys/"@ + id + "/versions/"@ + spec_dec_rep(version as nat)
}

/// The path of the mutable pointer to the latest key version.
pub open spec fn spec_latest_path(id: Seq<char>) -> Seq<char> {
    "keys/"@ + id + "/latest"@
}

/// Append the decimal representation of `v`.
fn push_dec(s: &mut String, v: u64)
    ensures
        final(s)@ == old(s)@ + spec_dec_rep(v as nat),
    decreases v,
{
    if v >= 10 {
        push_dec(s, v / 10);
    }
    let d: u64 = v % 10;
    let c: char = if d == 0 {
        '0'
    } else if d == 1 {
        '1'
    } else if d == 2 {
        '2'
    } else if d == 3 {
        '3'
    } else if d == 4 {
        '4'
    } else if d == 5 {
        '5'
    } else if d == 6 {
        '6'
    } else if d == 7 {
        '7'
    } else if d == 8 {
        '8'
    } else {
        '9'
    };
    crate::string_push(s, c);
    proof {
        assert(c == spec_dec_digit((v % 10) as nat));
        if v >= 10 {
            assert(old(s)@ + spec_dec_rep(v as nat) =~= (old(s)@ + spec_dec_rep((v / 10) as nat)).push(
                spec_dec_digit((v % 10) as nat),
            ));
        } else {
            assert(old(s)@ + spec_dec_rep(v as nat) =~= old(s)@.push(spec_dec_digit(v as nat)));
        }
    }
}

/// A decimal representation holds at least one digit.
pub proof fn lemma_dec_rep_len(v: nat)
    ensures
        spec_dec_rep(v).len() >= 1,
    decreases v,
{
    if v >= 10 {
        lemma_dec_rep_len(v / 10);
    }
}

/// Decimal digits of distinct values are distinct characters.
proof fn lemma_dec_digit_injective(d1: nat, d2: nat)
    requires
        d1 < 10,
        d2 < 10,
        d1 != d2,
    ensures
        spec_dec_digit(d1) != spec_dec_digit(d2),
{
}

/// The decimal representation determines the value: no two values render to
/// the same digits.
pub proof fn lemma_dec_rep_injective(v1: nat, v2: nat)
    requires
        spec_dec_rep(v1) == spec_dec_rep(v2),
    ensures
        v1 == v2,
    decreases v1,
{
    lemma_dec_rep_len(v1);
    lemma_dec_rep_len(v2);
    assert(spec_dec_rep(v1).last() == spec_dec_digit(v1 % 10));
    assert(spec_dec_rep(v2).last() == spec_dec_digit(v2 % 10));
    if v1 % 10 != v2 % 10 {
        lemma_dec_digit_injective(v1 % 10, v2 % 10);
    }
    if v1 < 10 && v2 < 10 {
        assert(v1 == v1 % 10 && v2 == v2 % 10);
    } else if v1 >= 10 && v2 >= 10 {
        assert(spec_dec_rep(v1).drop_last() == spec_dec_rep(v1 / 10));
        assert(spec_dec_rep(v2).drop_last() == spec_dec_rep(v2 / 10));
        lemma_dec_rep_injective(v1 / 10, v2 / 10);
        assert(v1 == (v1 / 10) * 10 + v1 % 10) by (nonlinear_arith);
        assert(v2 == (v2 / 10) * 10 + v2 % 10) by (nonlinear_arith);
    } else if v1 >= 10 {
        lemma_dec_rep_len(v1 / 10);
        assert(spec_dec_rep(v1).len() >= 2);
        assert(spec_dec_rep(v2).len() == 1);
    } else {
        lemma_dec_rep_len(v2 / 10);
        assert(spec_dec_rep(v2).len() >= 2);
        assert(spec_dec_rep(v1).len() == 1);
    }
}

/// Distinct versions of one identifier have distinct record paths: a version
/// record is never shadowed by another version's.
pub proof fn lemma_version_paths_distinct(id: Seq<char>, v1: u64, v2: u64)
    requires
        v1 != v2,
    ensures
        spec_version_path(id, v1) != spec_version_path(id, v2),
{
    if spec_version_path(id, v1) == spec_version_path(id, v2) {
        let p = "keys/"@ + id + "/versions/"@;
        let n = p.len() as int;
        let s1 = spec_version_path(id, v1);
        let s2 = spec_version_path(id, v2);
        assert(spec_dec_rep(v1 as nat) =~= s1.subrange(n, s1.len() as int));
        assert(spec_dec_rep(v2 as nat) =~= s2.subrange(n, s2.len() as int));
        lemma_dec_rep_injective(v1 as nat, v2 as nat);
    }
}

/// The two paths of one identifier never collide: the version path is
/// strictly longer than the latest path.
pub proof fn lemma_paths_distinct(id: Seq<char>, version: u64)
    ensures
        spec_latest_path(id) != spec_version_path(id, version),
{
    reveal_strlit("keys/");
    reveal_strlit("/latest");
    reveal_strlit("/versions/");
    lemma_dec_rep_len(version as nat);
    assert(spec_latest_path(id).len() < spec_version_path(id, version).len());
}

/// Build the path of one key version's record.
pub fn version_path(id: &str, version: u64) -> (r: String)
    ensures
        r@ == spec_version_path(id@, version),
{
    let mut s = String::from_str("keys/");
    s.append(id);
    s.append("/versions/");
    push_dec(&mut s, version);
    proof {
        assert(s@ =~= spec_version_path(id@, version));
    }
    s
}

/// Build the path of the latest-version pointer.
pub fn latest_path(id: &str) -> (r: String)
    ensures
        r@ == spec_latest_path(id@),
{
    let mut s = String::from_str("keys/");
    s.append(id);
    s.append("/latest");
    proof {
        assert(s@ =~= spec_latest_path(id@));
    }
    s
}

} // verus!

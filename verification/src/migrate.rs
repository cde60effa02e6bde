//! Splitting a SQL migration script into its statements: the script is
//! cut at every semicolon, each piece is trimmed of surrounding
//! whitespace, and empty pieces are dropped.

use vstd::prelude::*;

verus! {

/// ASCII whitespace as the trimmer sees it: space, tab, carriage return,
/// line feed.
pub open spec fn spec_is_space_byte(b: u8) -> bool {
    b == 32 || b == 9 || b == 13 || b == 10
}

/// The semicolon byte.
pub open spec fn spec_semi() -> u8 {
    59
}

/// A piece with its leading whitespace removed.
pub open spec fn spec_trim_front(s: Seq<u8>) -> Seq<u8>
    decreases s.len(),
{
    if s.len() > 0 && spec_is_space_byte(s.first()) {
        spec_trim_front(s.drop_first())
    } else {
        s
    }
}

/// A piece with its trailing whitespace removed.
pub open spec fn spec_trim_back(s: Seq<u8>) -> Seq<u8>
    decreases s.len(),
{
    if s.len() > 0 && spec_is_space_byte(s.last()) {
        spec_trim_back(s.drop_last())
    } else {
        s
    }
}

/// A piece with surrounding whitespace removed.
pub open spec fn spec_trim(s: Seq<u8>) -> Seq<u8> {
    spec_trim_back(spec_trim_front(s))
}

/// What one piece between semicolons contributes: its trimmed text, or
/// nothing when only whitespace is left.
pub open spec fn spec_piece_statements(piece: Seq<u8>) -> Seq<Seq<u8>> {
    if spec_trim(piece).len() == 0 {
        Seq::empty()
    } else {
        seq![spec_trim(piece)]
    }
}

/// The statements of the script remainder `s`, with `cur` the piece
/// accumulated since the last semicolon.
pub open spec fn spec_statements_from(s: Seq<u8>, cur: Seq<u8>) -> Seq<Seq<u8>>
    decreases s.len(),
{
    if s.len() == 0 {
        spec_piece_statements(cur)
    } else if s.first() == spec_semi() {
        spec_piece_statements(cur) + spec_statements_from(s.drop_first(), Seq::empty())
    } else {
        spec_statements_from(s.drop_first(), cur.push(s.first()))
    }
}

/// The statements of a whole script.
pub open spec fn spec_statements(s: Seq<u8>) -> Seq<Seq<u8>> {
    spec_statements_from(s, Seq::empty())
}

/// Whether a byte counts as whitespace for trimming.
fn is_space_byte(b: u8) -> (r: bool)
    ensures
        r == spec_is_space_byte(b),
{
    b == 32 || b == 9 || b == 13 || b == 10
}

/// Trim surrounding whitespace from one piece.
fn trim_bytes(v: &Vec<u8>) -> (out: Vec<u8>)
    ensures
        out@ == spec_trim(v@),
{
    let n = v.len();
    let mut a: usize = 0;
    proof {
        assert(v@.skip(0) =~= v@);
    }
    while a < n && is_space_byte(v[a])
        invariant
            n == v@.len(),
            a <= n,
            spec_trim_front(v@) == spec_trim_front(v@.skip(a as int)),
        decreases n - a,
    {
        proof {
            assert(v@.skip(a as int).drop_first() =~= v@.skip(a as int + 1));
        }
        a += 1;
    }
    proof {
        assert(spec_trim_front(v@) == v@.skip(a as int));
    }
    let mut b: usize = n;
    while b > a && is_space_byte(v[b - 1])
        invariant
            n == v@.len(),
            a <= b <= n,
            spec_trim_front(v@) == v@.skip(a as int),
            spec_trim_back(v@.skip(a as int)) == spec_trim_back(
                v@.subrange(a as int, b as int),
            ),
        decreases b,
    {
        proof {
            assert(v@.subrange(a as int, b as int).drop_last() =~= v@.subrange(
                a as int,
                b as int - 1,
            ));
        }
        b -= 1;
    }
    proof {
        assert(v@.skip(a as int) =~= v@.subrange(a as int, n as int));
        assert(spec_trim(v@) == v@.subrange(a as int, b as int));
    }
    let mut out: Vec<u8> = Vec::new();
    let mut k: usize = a;
    while k < b
        invariant
            a <= k <= b <= n,
            n == v@.len(),
            out@ == v@.subrange(a as int, k as int),
        decreases b - k,
    {
        out.push(v[k]);
        proof {
            assert(v@.subrange(a as int, k as int).push(v@[k as int]) =~= v@.subrange(
                a as int,
                k as int + 1,
            ));
        }
        k += 1;
    }
    out
}

/// Split a migration script into the statements to execute: the text is
/// cut at every semicolon, each piece is trimmed, and pieces that are
/// empty after trimming are dropped.
pub fn split_sql_statements(sql: &[u8]) -> (out: Vec<Vec<u8>>)
    ensures
        out@.map_values(|st: Vec<u8>| st@) == spec_statements(sql@),
{
    let n = sql.len();
    let mut out: Vec<Vec<u8>> = Vec::new();
    let mut cur: Vec<u8> = Vec::new();
    let mut i: usize = 0;
    proof {
        assert(sql@.skip(0) =~= sql@);
        assert(cur@ =~= Seq::<u8>::empty());
        assert(out@.map_values(|st: Vec<u8>| st@) =~= Seq::<Seq<u8>>::empty());
        assert(Seq::<Seq<u8>>::empty() + spec_statements_from(sql@, Seq::empty())
            =~= spec_statements_from(sql@, Seq::empty()));
    }
    while i < n
        invariant
            n == sql@.len(),
            i <= n,
            spec_statements(sql@) == out@.map_values(|st: Vec<u8>| st@)
                + spec_statements_from(sql@.skip(i as int), cur@),
        decreases n - i,
    {
        let ghost out_pre = out@.map_values(|st: Vec<u8>| st@);
        let ghost cur_pre = cur@;
        proof {
            assert(sql@.skip(i as int).first() == sql@[i as int]);
            assert(sql@.skip(i as int).drop_first() =~= sql@.skip(i as int + 1));
        }
        if sql[i] == 59 {
            let stmt = trim_bytes(&cur);
            let ghost stmt_v = stmt@;
            cur = Vec::new();
            proof {
                assert(spec_statements_from(sql@.skip(i as int), cur_pre)
                    == spec_piece_statements(cur_pre) + spec_statements_from(
                    sql@.skip(i as int + 1),
                    Seq::empty(),
                ));
            }
            if stmt.len() > 0 {
                out.push(stmt);
                proof {
                    assert(out@.map_values(|st: Vec<u8>| st@) =~= out_pre.push(stmt_v));
                    assert(spec_piece_statements(cur_pre) =~= seq![stmt_v]);
                    assert(out_pre.push(stmt_v) + spec_statements_from(
                        sql@.skip(i as int + 1),
                        cur@,
                    ) =~= out_pre + (spec_piece_statements(cur_pre) + spec_statements_from(
                        sql@.skip(i as int + 1),
                        Seq::empty(),
                    )));
                }
            } else {
                proof {
                    assert(spec_piece_statements(cur_pre) =~= Seq::<Seq<u8>>::empty());
                    assert(out_pre + (spec_piece_statements(cur_pre) + spec_statements_from(
                        sql@.skip(i as int + 1),
                        Seq::empty(),
                    )) =~= out_pre + spec_statements_from(sql@.skip(i as int + 1), cur@));
                }
            }
        } else {
            cur.push(sql[i]);
        }
        i += 1;
    }
    proof {
        assert(sql@.skip(sql@.len() as int) =~= Seq::<u8>::empty());
    }
    let stmt = trim_bytes(&cur);
    let ghost stmt_v = stmt@;
    let ghost out_pre = out@.map_values(|st: Vec<u8>| st@);
    if stmt.len() > 0 {
        out.push(stmt);
        proof {
            assert(out@.map_values(|st: Vec<u8>| st@) =~= out_pre.push(stmt_v));
            assert(out_pre + spec_piece_statements(cur@) =~= out_pre.push(stmt_v));
        }
    } else {
        proof {
            assert(out_pre + spec_piece_statements(cur@) =~= out_pre);
        }
    }
    out
}

} // verus!

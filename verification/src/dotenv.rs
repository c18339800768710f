//! Reading variables from `KEY=VALUE` text, as in a `.env` file.

use vstd::prelude::*;

use crate::env::{insert, plain_env, Env, EnvMap, EnvView};
use crate::error::Result;
use crate::text::{find_from, lemma_find_from, lines, split_lines};

verus! {

/// A line holds a variable when it is not empty and has a `=` in it.
pub open spec fn holds_pair(l: Seq<char>) -> bool {
    l.len() > 0 && l.contains('=')
}

/// The variable of a line: what comes before its first `=` is the key, what
/// comes after it the value.
pub open spec fn pair_of(l: Seq<char>) -> EnvView {
    let p = find_from(l, '=', 0);
    plain_env(l.take(p), l.skip(p + 1))
}

/// The variables of the lines `ls`, set in turn: lines without a `=` are
/// skipped, and a later variable with the key of an earlier one replaces it.
pub open spec fn dotenv_envs(ls: Seq<Seq<char>>) -> Seq<EnvView>
    decreases ls.len(),
{
    if ls.len() == 0 {
        Seq::empty()
    } else if holds_pair(ls.last()) {
        insert(dotenv_envs(ls.drop_last()), pair_of(ls.last()))
    } else {
        dotenv_envs(ls.drop_last())
    }
}

/// The position of the first `=` of `s`, or its length when it has none.
fn first_equal(s: &str) -> (r: usize)
    ensures
        r == find_from(s@, '=', 0),
        r <= s@.len(),
        r < s@.len() <==> s@.contains('='),
{
    let n = s.unicode_len();
    let mut i: usize = 0;
    while i < n && s.get_char(i) != '='
        invariant
            n == s@.len(),
            i <= n,
            forall|k: int| 0 <= k < i ==> #[trigger] s@[k] != '=',
        decreases n - i,
    {
        i = i + 1;
    }
    proof {
        lemma_find_from(s@, '=', 0, i as int);
        if s@.contains('=') && i == n {
            let k = choose|k: int| 0 <= k < s@.len() && s@[k] == '=';
            assert(s@[k] != '=');
        }
    }
    i
}

/// Reads the variables of `buffer`, one `KEY=VALUE` per line: a line without
/// a `=` is skipped, the key is what comes before the first `=` and the value
/// what comes after it, and a later variable with the key of an earlier one
/// replaces it. Reading never fails.
pub fn parse_envs_from_string(buffer: &str) -> (r: Result<EnvMap>)
    ensures
        r matches Ok(m) && m.wf() && m@ == dotenv_envs(lines(buffer@)),
{
    let ls = split_lines(buffer);
    let ghost lv = lines(buffer@);
    let mut envs = EnvMap::new();
    let mut i: usize = 0;
    while i < ls.len()
        invariant
            i <= ls@.len(),
            ls@.len() == lv.len(),
            lv == lines(buffer@),
            forall|k: int| 0 <= k < ls@.len() ==> (#[trigger] ls@[k])@ == lv[k],
            envs.wf(),
            envs@ == dotenv_envs(lv.take(i as int)),
        decreases ls@.len() - i,
    {
        let line = ls[i];
        proof {
            assert(lv.take(i + 1).drop_last() =~= lv.take(i as int));
            assert(lv.take(i + 1).last() == line@);
        }
        let p = first_equal(line);
        let n = line.unicode_len();
        if n > 0 && p < n {
            let key = line.substring_char(0, p);
            let value = line.substring_char(p + 1, n);
            proof {
                assert(key@ =~= line@.take(p as int));
                assert(value@ =~= line@.skip(p + 1));
            }
            envs.insert(Env::from_key_value(key.to_owned(), value.to_owned()));
        }
        i = i + 1;
    }
    proof {
        assert(lv.take(i as int) =~= lv);
    }
    Ok(envs)
}

} // verus!

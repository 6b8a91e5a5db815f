//! Reformatting of a container's published-port list.

use vstd::prelude::*;
use crate::text::{
    chars_of, find_char, find_in, find_pair, find_pair_in, join, rfind_char, rfind_in,
    slice_string, split, trim, trim_range,
};

verus! {

/// The port kept from one comma-separated entry: `host:hostport->port/proto`
/// keeps `hostport`, `port/proto` keeps `port`, anything else is dropped.
pub open spec fn port_of_entry(entry: Seq<char>) -> Option<Seq<char>> {
    let t = trim(entry);
    match find_pair(t, '-', '>') {
        Some(a) => match rfind_char(t.take(a), ':') {
            Some(c) => Some(t.subrange(c + 1, a)),
            None => None,
        },
        None => match find_char(t, '/') {
            Some(p) => Some(t.take(p)),
            None => None,
        },
    }
}

/// The ports kept from `entries`, in order.
pub open spec fn kept_ports(entries: Seq<Seq<char>>) -> Seq<Seq<char>>
    decreases entries.len(),
{
    if entries.len() == 0 {
        Seq::empty()
    } else {
        let init = kept_ports(entries.drop_last());
        match port_of_entry(entries.last()) {
            Some(p) => init.push(p),
            None => init,
        }
    }
}

pub open spec fn list_sep() -> Seq<char> {
    seq![',', ' ']
}

/// The displayed port list for a raw port mapping string.
pub open spec fn ports_text(raw: Seq<char>) -> Seq<char> {
    join(kept_ports(split(raw, ',')), list_sep())
}

proof fn lemma_join_push(k: Seq<Seq<char>>, p: Seq<char>, before: Seq<char>)
    requires
        before == join(k, list_sep()),
    ensures
        join(k.push(p), list_sep()) == if k.len() > 0 {
            before + list_sep() + p
        } else {
            before + p
        },
{
    assert(k.push(p).drop_last() =~= k);
    if k.len() == 0 {
        assert(before + p =~= p);
    }
}

/// The port kept from the entry `cs[lo..hi]` of `s`.
fn entry_port(s: &str, cs: &Vec<char>, lo: usize, hi: usize) -> (r: Option<String>)
    requires
        cs@ == s@,
        lo <= hi <= cs.len(),
    ensures
        match r {
            Some(p) => port_of_entry(cs@.subrange(lo as int, hi as int)) == Some(p@),
            None => port_of_entry(cs@.subrange(lo as int, hi as int)) is None,
        },
{
    let (a, b) = trim_range(cs, lo, hi);
    let ghost t = cs@.subrange(a as int, b as int);
    match find_pair_in(cs, a, b, '-', '>') {
        Some(x) => {
            assert(t.take(x - a) =~= cs@.subrange(a as int, x as int));
            match rfind_in(cs, a, x, ':') {
                Some(c) => {
                    let p = slice_string(s, c + 1, x);
                    assert(p@ =~= t.subrange(c - a + 1, x - a));
                    Some(p)
                },
                None => None,
            }
        },
        None => match find_in(cs, a, b, '/') {
            Some(q) => {
                let p = slice_string(s, a, q);
                assert(p@ =~= t.take(q - a));
                Some(p)
            },
            None => None,
        },
    }
}

/// Reformats a raw port mapping such as `0.0.0.0:80->80/tcp, 443/tcp` into
/// the list of ports a user reaches, here `80, 443`.
pub fn parse_ports(ports_str: &str) -> (r: String)
    ensures
        r@ == ports_text(ports_str@),
{
    let cs = chars_of(ports_str);
    let n = cs.len();
    let mut out = String::new();
    let ghost mut done: Seq<Seq<char>> = Seq::empty();
    let mut start: usize = 0;
    let mut any = false;
    let mut i: usize = 0;
    assert(cs@.take(0) =~= Seq::<char>::empty());
    assert(split(cs@.take(0), ',') =~= done.push(cs@.subrange(0, 0)));
    while i < n
        invariant
            cs@ == ports_str@,
            n == cs.len(),
            start <= i <= n,
            split(cs@.take(i as int), ',') == done.push(cs@.subrange(start as int, i as int)),
            out@ == join(kept_ports(done), list_sep()),
            any == (kept_ports(done).len() > 0),
        decreases n - i,
    {
        assert(cs@.take(i + 1).drop_last() =~= cs@.take(i as int));
        if cs[i] == ',' {
            let kept = entry_port(ports_str, &cs, start, i);
            proof {
                reveal_strlit(", ");
                let d2 = done.push(cs@.subrange(start as int, i as int));
                assert(d2.drop_last() =~= done);
                assert(d2.last() == cs@.subrange(start as int, i as int));
            }
            match kept {
                Some(p) => {
                    let ghost before = out@;
                    if any {
                        out.append(", ");
                    }
                    out.append(p.as_str());
                    proof {
                        lemma_join_push(kept_ports(done), p@, before);
                    }
                    any = true;
                },
                None => {},
            }
            proof {
                let d2 = done.push(cs@.subrange(start as int, i as int));
                assert(d2.drop_last() =~= done);
                assert(d2.last() == cs@.subrange(start as int, i as int));
                done = d2;
                assert(cs@.subrange(i + 1, i + 1) =~= Seq::<char>::empty());
            }
            start = i + 1;
        } else {
            assert(cs@.subrange(start as int, i + 1) =~= cs@.subrange(start as int, i as int).push(
                cs[i as int],
            ));
            assert(done.push(cs@.subrange(start as int, i + 1)) =~= done.push(
                cs@.subrange(start as int, i as int),
            ).update(done.len() as int, cs@.subrange(start as int, i as int).push(cs[i as int])));
        }
        i = i + 1;
    }
    let last = entry_port(ports_str, &cs, start, n);
    assert(cs@.take(n as int) =~= cs@);
    proof {
        reveal_strlit(", ");
        let all = done.push(cs@.subrange(start as int, n as int));
        assert(all.drop_last() =~= done);
        assert(all.last() == cs@.subrange(start as int, n as int));
    }
    match last {
        Some(p) => {
            let ghost before = out@;
            if any {
                out.append(", ");
            }
            out.append(p.as_str());
            proof {
                lemma_join_push(kept_ports(done), p@, before);
            }
        },
        None => {},
    }
    out
}

} // verus!

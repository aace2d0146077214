//! Domain names in presentation form, compared label-wise and without regard
//! to ASCII case.

use vstd::prelude::*;
use vstd::std_specs::iter::IteratorSpec;

verus! {

/// The ASCII lower-case form of a character; every other character is itself.
pub open spec fn lower_char(c: char) -> char {
    if 'A' <= c && c <= 'Z' {
        ((c as u8 + 32) as u8) as char
    } else {
        c
    }
}

/// A name with every ASCII upper-case letter replaced by its lower-case form.
pub open spec fn lower_name(name: Seq<char>) -> Seq<char> {
    name.map_values(|c: char| lower_char(c))
}

/// Lower-cases one character.
pub fn to_lower_char(c: char) -> (r: char)
    ensures
        r == lower_char(c),
{
    if 'A' <= c && c <= 'Z' {
        let code: u8 = c as u8 + 32;
        code as char
    } else {
        c
    }
}

/// The characters of a string, in order.
pub fn chars_of(s: &str) -> (v: Vec<char>)
    ensures
        v@ == s@,
{
    let mut v: Vec<char> = Vec::new();
    let mut it = s.chars();
    loop
        invariant
            v@ + it.remaining() == s@,
            it.obeys_prophetic_iter_laws(),
            it.decrease() is Some,
        decreases it.decrease()->0,
    {
        let ghost before = it;
        match it.next() {
            Some(c) => {
                proof {
                    vstd::string::next_postcondition(&before, &it, Some(c));
                }
                v.push(c);
            },
            None => {
                proof {
                    vstd::string::next_postcondition(&before, &it, None);
                }
                return v;
            },
        }
    }
}

/// Whether `name` lies under the domain `zone`, by whole labels and
/// without regard to ASCII case: the name ends with a dot followed by the
/// zone. With the zone `cn.` this holds of `www.example.cn.`, and not of
/// `mail.cn.example.com.`, of `xcn.`, or of the bare `cn.`, which has no
/// dot before the zone. Both are compared as they are written: a zone with
/// a final dot holds fully-qualified names only.
pub open spec fn in_domain(name: Seq<char>, zone: Seq<char>) -> bool {
    let n = lower_name(name);
    let z = lower_name(zone);
    &&& z.len() < n.len()
    &&& n.subrange(n.len() - z.len(), n.len() as int) == z
    &&& n[n.len() - z.len() - 1] == '.'
}

/// Decides `in_domain` in time linear in the two lengths.
pub fn name_in_domain(name: &str, zone: &str) -> (b: bool)
    ensures
        b == in_domain(name@, zone@),
{
    let n = chars_of(name);
    let z = chars_of(zone);
    if z.len() >= n.len() {
        return false;
    }
    let offset: usize = n.len() - z.len();
    let ghost ln = lower_name(name@);
    let ghost lz = lower_name(zone@);
    let mut i: usize = 0;
    while i < z.len()
        invariant
            i <= z.len(),
            n@ == name@,
            z@ == zone@,
            offset + z.len() == n.len(),
            ln == lower_name(name@),
            lz == lower_name(zone@),
            forall|k: int| 0 <= k < i ==> ln[offset + k] == lz[k],
        decreases z.len() - i,
    {
        if to_lower_char(n[offset + i]) != to_lower_char(z[i]) {
            assert(ln.subrange(ln.len() - lz.len(), ln.len() as int)[i as int] != lz[i as int]);
            return false;
        }
        i = i + 1;
    }
    assert(ln.subrange(ln.len() - lz.len(), ln.len() as int) =~= lz);
    n[offset - 1] == '.'
}

} // verus!

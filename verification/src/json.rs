//! JSON encoding of entities: each as an object with exactly the two
//! string fields `id` and `name`, a collection as an array of those
//! objects in order. Quotes, backslashes and control characters in the
//! fields are escaped, so the output is well-formed JSON for every entity.

use vstd::prelude::*;
use crate::hero::{Hero, HeroView, views_of};

verus! {

/// The sixteen lowercase hexadecimal digits, in value order.
pub open spec fn hex_digits() -> Seq<char> {
    seq!['0', '1', '2', '3', '4', '5', '6', '7', '8', '9', 'a', 'b', 'c', 'd', 'e', 'f']
}

/// JSON expansion of one character of a string body: quote and backslash
/// are escaped with a backslash, a control character (below U+0020) as
/// `\u00` and its two lowercase hexadecimal digits, and every other
/// character stands for itself.
pub open spec fn escaped_char(c: char) -> Seq<char> {
    if c == '"' || c == '\\' {
        seq!['\\', c]
    } else if (c as u32) < 32 {
        seq![
            '\\',
            'u',
            '0',
            '0',
            hex_digits()[((c as u32) / 16) as int],
            hex_digits()[((c as u32) % 16) as int],
        ]
    } else {
        seq![c]
    }
}

/// JSON expansion of a whole string body, character by character.
pub open spec fn escaped(s: Seq<char>) -> Seq<char>
    decreases s.len(),
{
    if s.len() == 0 {
        Seq::empty()
    } else {
        escaped_char(s[0]) + escaped(s.skip(1))
    }
}

/// Escaping a concatenation escapes the parts.
pub proof fn lemma_escaped_add(a: Seq<char>, b: Seq<char>)
    ensures
        escaped(a + b) == escaped(a) + escaped(b),
    decreases a.len(),
{
    if a.len() == 0 {
        assert(a + b =~= b);
        assert(escaped(a) + escaped(b) =~= escaped(b));
    } else {
        assert((a + b).skip(1) =~= a.skip(1) + b);
        assert((a + b)[0] == a[0]);
        lemma_escaped_add(a.skip(1), b);
        assert(escaped(a + b) =~= escaped(a) + escaped(b));
    }
}

/// The JSON string literal for `s`: the escaped body in double quotes.
pub open spec fn json_string(s: Seq<char>) -> Seq<char> {
    seq!['"'] + escaped(s) + seq!['"']
}

/// The JSON object for one entity: its `id` and `name` fields as JSON
/// strings, in that order, with no padding.
pub open spec fn hero_json(h: HeroView) -> Seq<char> {
    seq!['{', '"', 'i', 'd', '"', ':'] + json_string(h.id)
        + seq![',', '"', 'n', 'a', 'm', 'e', '"', ':'] + json_string(h.name) + seq!['}']
}

/// The comma-separated JSON objects of the entities, in order.
pub open spec fn heroes_json_items(hs: Seq<HeroView>) -> Seq<char>
    decreases hs.len(),
{
    if hs.len() == 0 {
        Seq::empty()
    } else if hs.len() == 1 {
        hero_json(hs[0])
    } else {
        hero_json(hs[0]) + seq![','] + heroes_json_items(hs.skip(1))
    }
}

/// The JSON array of a sequence of entities, in order.
pub open spec fn heroes_json(hs: Seq<HeroView>) -> Seq<char> {
    seq!['['] + heroes_json_items(hs) + seq![']']
}

/// Appending one entity to the sequence appends its object (and a comma,
/// where the sequence was not empty) to the items.
pub proof fn lemma_heroes_json_items_push(hs: Seq<HeroView>, h: HeroView)
    ensures
        heroes_json_items(hs.push(h)) == if hs.len() == 0 {
            hero_json(h)
        } else {
            (heroes_json_items(hs) + seq![','] + hero_json(h))
        },
    decreases hs.len(),
{
    if hs.len() == 0 {
        assert(hs.push(h) =~= seq![h]);
    } else {
        assert(hs.push(h)[0] == hs[0]);
        assert(hs.push(h).skip(1) =~= hs.skip(1).push(h));
        lemma_heroes_json_items_push(hs.skip(1), h);
        if hs.len() == 1 {
            assert(hs.skip(1).len() == 0);
            assert(heroes_json_items(hs.push(h)) =~= heroes_json_items(hs) + seq![','] + hero_json(h));
        } else {
            assert(heroes_json_items(hs.push(h)) =~= heroes_json_items(hs) + seq![','] + hero_json(h));
        }
    }
}

/// Two control-character escapes that start equal concatenations stand for
/// the same character and leave equal remainders.
proof fn lemma_control_escape_unique(a0: char, b0: char, ra: Seq<char>, rb: Seq<char>)
    requires
        !(a0 == '"' || a0 == '\\'),
        !(b0 == '"' || b0 == '\\'),
        (a0 as u32) < 32,
        (b0 as u32) < 32,
        escaped_char(a0) + ra == escaped_char(b0) + rb,
    ensures
        a0 == b0,
        ra == rb,
{
    let ea = escaped_char(a0);
    let eb = escaped_char(b0);
    assert(ea[4] == hex_digits()[((a0 as u32) / 16) as int] && ea[5] == hex_digits()[((a0 as u32)
        % 16) as int] && ea.len() == 6);
    assert(eb[4] == hex_digits()[((b0 as u32) / 16) as int] && eb[5] == hex_digits()[((b0 as u32)
        % 16) as int] && eb.len() == 6);
    assert(a0 == b0) by {
        assert((ea + ra)[4] == ea[4] && (ea + ra)[5] == ea[5]);
        assert((eb + rb)[4] == eb[4] && (eb + rb)[5] == eb[5]);
        assert((a0 as u32) / 16 == (b0 as u32) / 16);
        assert((a0 as u32) % 16 == (b0 as u32) % 16);
        assert(a0 as u32 == b0 as u32);
    }
    assert((ea + ra).len() == 6 + ra.len());
    assert((eb + rb).len() == 6 + rb.len());
    assert(ra.len() == rb.len());
    assert(ra =~= rb) by {
        assert(forall|i: int|
            0 <= i < ra.len() ==> (ea + ra)[i + 6] == ra[i] && (eb + rb)[i + 6] == rb[i]);
    }
}

/// The escaping is a prefix code and the closing quote cannot be mistaken
/// for body content: if two escaped bodies, each followed by a closing
/// quote and an arbitrary tail, coincide, the bodies and the tails
/// coincide.
proof fn lemma_escaped_unique(a: Seq<char>, b: Seq<char>, u: Seq<char>, v: Seq<char>)
    requires
        escaped(a) + seq!['"'] + u == escaped(b) + seq!['"'] + v,
    ensures
        a == b,
        u == v,
    decreases a.len(),
{
    let la = escaped(a) + seq!['"'] + u;
    let lb = escaped(b) + seq!['"'] + v;
    if a.len() == 0 && b.len() == 0 {
        let q = seq!['"'];
        assert(escaped(a) =~= Seq::<char>::empty());
        assert(escaped(b) =~= Seq::<char>::empty());
        assert(la =~= q + u);
        assert(lb =~= q + v);
        assert(q.len() == 1);
        assert((q + u).len() == 1 + u.len());
        assert((q + v).len() == 1 + v.len());
        assert(u.len() == v.len());
        assert(u =~= v) by {
            assert(forall|i: int|
                0 <= i < u.len() ==> (q + u)[i + 1] == u[i] && (q + v)[i + 1] == v[i]);
        }
    } else if a.len() == 0 {
        assert(la[0] == '"') by {
            assert(escaped(a) =~= Seq::<char>::empty());
            assert(la =~= seq!['"'] + u);
        }
        assert(lb[0] == escaped_char(b[0])[0]) by {
            assert(escaped(b) == escaped_char(b[0]) + escaped(b.skip(1)));
        }
        assert(false);
    } else if b.len() == 0 {
        assert(lb[0] == '"') by {
            assert(escaped(b) =~= Seq::<char>::empty());
            assert(lb =~= seq!['"'] + v);
        }
        assert(la[0] == escaped_char(a[0])[0]) by {
            assert(escaped(a) == escaped_char(a[0]) + escaped(a.skip(1)));
        }
        assert(false);
    } else {
        let ra = escaped(a.skip(1)) + seq!['"'] + u;
        let rb = escaped(b.skip(1)) + seq!['"'] + v;
        assert(escaped(a) == escaped_char(a[0]) + escaped(a.skip(1)));
        assert(escaped(b) == escaped_char(b[0]) + escaped(b.skip(1)));
        assert(la =~= escaped_char(a[0]) + ra);
        assert(lb =~= escaped_char(b[0]) + rb);
        let a0 = a[0];
        let b0 = b[0];
        let a_marks = a0 == '"' || a0 == '\\';
        let b_marks = b0 == '"' || b0 == '\\';
        let a_control = !a_marks && (a0 as u32) < 32;
        let b_control = !b_marks && (b0 as u32) < 32;
        let ea = escaped_char(a0);
        let eb = escaped_char(b0);
        if a_marks && b_marks {
            assert(la =~= seq!['\\', a0] + ra);
            assert(lb =~= seq!['\\', b0] + rb);
            assert(a0 == b0) by {
                assert((seq!['\\', a0] + ra)[1] == a0);
                assert((seq!['\\', b0] + rb)[1] == b0);
            }
            assert(ra =~= rb) by {
                assert(forall|i: int|
                    0 <= i < ra.len() ==> (seq!['\\', a0] + ra)[i + 2] == ra[i] && (
                    seq!['\\', b0] + rb)[i + 2] == rb[i]);
            }
            lemma_escaped_unique(a.skip(1), b.skip(1), u, v);
            assert(a =~= seq![a0] + a.skip(1));
            assert(b =~= seq![b0] + b.skip(1));
        } else if a_control && b_control {
            assert(ea + ra == eb + rb);
            lemma_control_escape_unique(a0, b0, ra, rb);
            lemma_escaped_unique(a.skip(1), b.skip(1), u, v);
            assert(a =~= seq![a0] + a.skip(1));
            assert(b =~= seq![b0] + b.skip(1));
        } else if !a_marks && !a_control && !b_marks && !b_control {
            assert(la =~= seq![a0] + ra);
            assert(lb =~= seq![b0] + rb);
            assert(a0 == b0) by {
                assert((seq![a0] + ra)[0] == a0);
                assert((seq![b0] + rb)[0] == b0);
            }
            assert(ra =~= rb) by {
                assert(forall|i: int|
                    0 <= i < ra.len() ==> (seq![a0] + ra)[i + 1] == ra[i] && (seq![b0] + rb)[i + 1]
                        == rb[i]);
            }
            lemma_escaped_unique(a.skip(1), b.skip(1), u, v);
            assert(a =~= seq![a0] + a.skip(1));
            assert(b =~= seq![b0] + b.skip(1));
        } else if a_marks && b_control {
            assert((ea + ra)[1] == a0);
            assert((eb + rb)[1] == 'u');
            assert(false);
        } else if a_control && b_marks {
            assert((ea + ra)[1] == 'u');
            assert((eb + rb)[1] == b0);
            assert(false);
        } else if a_marks || a_control {
            assert((ea + ra)[0] == '\\');
            assert((eb + rb)[0] == b0);
            assert(false);
        } else {
            assert((ea + ra)[0] == a0);
            assert((eb + rb)[0] == '\\');
            assert(false);
        }
    }
}

/// Serialization loses nothing: two entities with the same JSON object are
/// the same entity.
pub proof fn lemma_hero_json_injective(h1: HeroView, h2: HeroView)
    requires
        hero_json(h1) == hero_json(h2),
    ensures
        h1 == h2,
{
    let mid = seq![',', '"', 'n', 'a', 'm', 'e', '"', ':'];
    let tail1 = mid + json_string(h1.name) + seq!['}'];
    let tail2 = mid + json_string(h2.name) + seq!['}'];
    assert(hero_json(h1).skip(7) =~= escaped(h1.id) + seq!['"'] + tail1);
    assert(hero_json(h2).skip(7) =~= escaped(h2.id) + seq!['"'] + tail2);
    lemma_escaped_unique(h1.id, h2.id, tail1, tail2);
    assert(tail1.skip(9) =~= escaped(h1.name) + seq!['"'] + seq!['}']);
    assert(tail2.skip(9) =~= escaped(h2.name) + seq!['"'] + seq!['}']);
    lemma_escaped_unique(h1.name, h2.name, seq!['}'], seq!['}']);
}

/// Relies on String::push: appends the given character to the end of the
/// string.
#[verifier::external_body]
fn push_char(s: &mut String, c: char)
    ensures
        final(s)@ == old(s)@.push(c),
{
    s.push(c);
}

/// The lowercase hexadecimal digit for a value below sixteen.
fn hex_digit(d: u32) -> (r: char)
    requires
        d < 16,
    ensures
        r == hex_digits()[d as int],
{
    if d == 0 {
        '0'
    } else if d == 1 {
        '1'
    } else if d == 2 {
        '2'
    } else if d == 3 {
        '3'
    } else if d == 4 {
        '4'
    } else if d == 5 {
        '5'
    } else if d == 6 {
        '6'
    } else if d == 7 {
        '7'
    } else if d == 8 {
        '8'
    } else if d == 9 {
        '9'
    } else if d == 10 {
        'a'
    } else if d == 11 {
        'b'
    } else if d == 12 {
        'c'
    } else if d == 13 {
        'd'
    } else if d == 14 {
        'e'
    } else {
        'f'
    }
}

/// Appends the escaped body of `s` to `out`.
fn append_escaped(out: &mut String, s: &str)
    ensures
        final(out)@ == old(out)@ + escaped(s@),
{
    let ghost base = out@;
    let n = s.unicode_len();
    let mut i: usize = 0;
    while i < n
        invariant
            i <= n,
            n == s@.len(),
            out@ == base + escaped(s@.take(i as int)),
        decreases n - i,
    {
        let c = s.get_char(i);
        proof {
            reveal_with_fuel(escaped, 3);
            assert(s@.take(i as int + 1) =~= s@.take(i as int) + seq![s@[i as int]]);
            lemma_escaped_add(s@.take(i as int), seq![s@[i as int]]);
            assert(seq![s@[i as int]].skip(1) =~= Seq::<char>::empty());
            assert(escaped(seq![s@[i as int]]) =~= escaped_char(s@[i as int]));
        }
        if c == '"' || c == '\\' {
            push_char(out, '\\');
            push_char(out, c);
        } else if (c as u32) < 32 {
            let code = c as u32;
            push_char(out, '\\');
            push_char(out, 'u');
            push_char(out, '0');
            push_char(out, '0');
            push_char(out, hex_digit(code / 16));
            push_char(out, hex_digit(code % 16));
        } else {
            push_char(out, c);
        }
        proof {
            assert(out@ =~= base + escaped(s@.take(i as int + 1)));
        }
        i += 1;
    }
    proof {
        assert(s@.take(n as int) =~= s@);
    }
}

/// Appends the JSON string literal for `s` to `out`.
fn append_json_string(out: &mut String, s: &str)
    ensures
        final(out)@ == old(out)@ + json_string(s@),
{
    push_char(out, '"');
    append_escaped(out, s);
    push_char(out, '"');
    proof {
        assert(out@ =~= old(out)@ + json_string(s@));
    }
}

/// Serializes one entity to its JSON object, exactly [`hero_json`].
pub fn hero_to_json(h: &Hero) -> (r: String)
    ensures
        r@ == hero_json(h@),
{
    let mut r = String::new();
    r.append("{\"id\":");
    append_json_string(&mut r, h.id.as_str());
    r.append(",\"name\":");
    append_json_string(&mut r, h.name.as_str());
    push_char(&mut r, '}');
    proof {
        reveal_strlit("{\"id\":");
        reveal_strlit(",\"name\":");
        assert(("{\"id\":")@ =~= seq!['{', '"', 'i', 'd', '"', ':']);
        assert((",\"name\":")@ =~= seq![',', '"', 'n', 'a', 'm', 'e', '"', ':']);
        assert(r@ =~= hero_json(h@));
    }
    r
}

/// Serializes a collection of entities to its JSON array, exactly
/// [`heroes_json`] of their views in order.
pub fn heroes_to_json(heroes: &Vec<Hero>) -> (r: String)
    ensures
        r@ == heroes_json(views_of(heroes@)),
{
    let ghost views = views_of(heroes@);
    let mut r = String::new();
    push_char(&mut r, '[');
    let mut i: usize = 0;
    while i < heroes.len()
        invariant
            i <= heroes@.len(),
            views == views_of(heroes@),
            views.len() == heroes@.len(),
            r@ == seq!['['] + heroes_json_items(views.take(i as int)),
        decreases heroes@.len() - i,
    {
        if i > 0 {
            push_char(&mut r, ',');
        }
        let hj = hero_to_json(&heroes[i]);
        r.append(hj.as_str());
        proof {
            assert(views[i as int] == heroes@[i as int]@);
            lemma_heroes_json_items_push(views.take(i as int), views[i as int]);
            assert(views.take(i as int).push(views[i as int]) =~= views.take(i as int + 1));
            assert(r@ =~= seq!['['] + heroes_json_items(views.take(i as int + 1)));
        }
        i += 1;
    }
    push_char(&mut r, ']');
    proof {
        assert(views.take(views.len() as int) =~= views);
        assert(r@ =~= heroes_json(views));
    }
    r
}

} // verus!

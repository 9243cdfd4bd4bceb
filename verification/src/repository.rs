//! The repository port: the one data-access operation the service needs,
//! the pattern-matching rule it is specified by, and the in-memory
//! reference implementation.

use vstd::prelude::*;
use crate::hero::{Hero, HeroView, views_of};

verus! {

/// Categorized failure of a data-access operation. `NotFound` is the
/// expected "zero matches" outcome; `TechnicalError` signals an
/// infrastructure failure of a real backend; `OtherError` catches anything
/// not otherwise classified.
#[derive(Clone, Copy, Debug, PartialEq, Eq, Structural)]
pub enum DataAccessError {
    NotFound,
    TechnicalError,
    OtherError,
}

/// Does `pattern` select `name`? A pattern ending in the wildcard marker
/// `'%'` selects every name that starts with the part before the marker;
/// any other pattern selects exactly the name equal to it (case-sensitive,
/// codepoint-exact).
pub open spec fn pattern_matches(pattern: Seq<char>, name: Seq<char>) -> bool {
    if pattern.len() > 0 && pattern.last() == '%' {
        pattern.drop_last().is_prefix_of(name)
    } else {
        name == pattern
    }
}

/// Decides [`pattern_matches`] for a pattern and a candidate name.
pub fn name_matches(pattern: &str, name: &str) -> (r: bool)
    ensures
        r == pattern_matches(pattern@, name@),
{
    let plen = pattern.unicode_len();
    let nlen = name.unicode_len();
    if plen > 0 && pattern.get_char(plen - 1) == '%' {
        let prefix_len = plen - 1;
        if nlen < prefix_len {
            return false;
        }
        let mut i: usize = 0;
        while i < prefix_len
            invariant
                i <= prefix_len,
                prefix_len < plen == pattern@.len(),
                prefix_len <= nlen == name@.len(),
                pattern@.last() == '%',
                forall|j: int| 0 <= j < i ==> pattern@[j] == name@[j],
            decreases prefix_len - i,
        {
            if pattern.get_char(i) != name.get_char(i) {
                assert(pattern@.drop_last()[i as int] != name@.subrange(0, prefix_len as int)[i as int]);
                return false;
            }
            i += 1;
        }
        proof {
            assert(pattern@.drop_last() =~= name@.subrange(0, prefix_len as int));
        }
        true
    } else {
        if plen != nlen {
            return false;
        }
        let mut i: usize = 0;
        while i < plen
            invariant
                i <= plen,
                plen == pattern@.len() == name@.len(),
                !(plen > 0 && pattern@.last() == '%'),
                forall|j: int| 0 <= j < i ==> pattern@[j] == name@[j],
            decreases plen - i,
        {
            if pattern.get_char(i) != name.get_char(i) {
                return false;
            }
            i += 1;
        }
        proof {
            assert(pattern@ =~= name@);
        }
        true
    }
}

/// The wildcard marker alone selects every name.
pub proof fn lemma_wildcard_matches_all(name: Seq<char>)
    ensures
        pattern_matches(seq!['%'], name),
{
    assert(seq!['%'].drop_last() =~= name.subrange(0, 0));
}

/// The views of the two entities the reference repository holds, in its
/// enumeration order.
pub open spec fn reference_catalog() -> Seq<HeroView> {
    seq![
        HeroView { id: seq!['1'], name: seq!['W', 'o', 'n', 'd', 'e', 'r', ' ', 'W', 'o', 'm', 'a', 'n'] },
        HeroView { id: seq!['2'], name: seq!['D', 'e', 'a', 'd', 'p', 'o', 'o', 'l'] },
    ]
}

/// The entities of the reference repository that `pattern` selects, in
/// catalog order.
pub open spec fn reference_selection(pattern: Seq<char>) -> Seq<HeroView> {
    reference_catalog().filter(|h: HeroView| pattern_matches(pattern, h.name))
}

/// The repository port. Implementations look entities up by a name pattern
/// (see [`pattern_matches`] for the intended rule); the service depends on
/// this contract alone, never on a concrete storage type, so scripted test
/// doubles and real backends can be substituted freely.
///
/// A successful lookup returns at least one entity: zero matches is the
/// failure `NotFound`, never an empty success, and implementations may
/// report `TechnicalError` or `OtherError` instead of an answer.
pub trait HeroesRepositoryTrait {
    /// Looks up the entities whose name `name` selects.
    fn get_by_name(&self, name: &str) -> (r: Result<Vec<Hero>, DataAccessError>)
        ensures
            r matches Ok(v) ==> v@.len() > 0,
    ;
}

/// In-memory reference implementation: two fixed entities, no failures
/// beyond `NotFound`. It exists to exercise the port's contract; a real
/// backend would take its place behind the same trait.
pub struct HeroesRepository();

impl HeroesRepository {
    /// Looks up the catalog entities whose name `name` selects: exactly
    /// [`reference_selection`], in catalog order, and `Err(NotFound)` if and
    /// only if that selection is empty.
    pub fn find_by_name(&self, name: &str) -> (r: Result<Vec<Hero>, DataAccessError>)
        ensures
            r matches Ok(v) ==> views_of(v@) == reference_selection(name@) && v@.len() > 0,
            r matches Err(e) ==> e == DataAccessError::NotFound,
            r is Err <==> reference_selection(name@).len() == 0,
    {
        let wonder = Hero::new("1", "Wonder Woman");
        let deadpool = Hero::new("2", "Deadpool");
        proof {
            reveal_strlit("1");
            reveal_strlit("2");
            reveal_strlit("Wonder Woman");
            reveal_strlit("Deadpool");
            assert(wonder@ == reference_catalog()[0]) by {
                assert(wonder@.id =~= reference_catalog()[0].id);
                assert(wonder@.name =~= reference_catalog()[0].name);
            }
            assert(deadpool@ == reference_catalog()[1]) by {
                assert(deadpool@.id =~= reference_catalog()[1].id);
                assert(deadpool@.name =~= reference_catalog()[1].name);
            }
        }
        let mut found: Vec<Hero> = Vec::new();
        if name_matches(name, wonder.name.as_str()) {
            found.push(wonder);
        }
        if name_matches(name, deadpool.name.as_str()) {
            found.push(deadpool);
        }
        proof {
            lemma_reference_selection_unfolded(name@);
            assert(views_of(found@) =~= reference_selection(name@));
        }
        if found.len() == 0 {
            Err(DataAccessError::NotFound)
        } else {
            Ok(found)
        }
    }
}

/// Spells the filter of the two-entity catalog out, so that callers can
/// relate a concrete pair of match decisions to [`reference_selection`].
pub proof fn lemma_reference_selection_unfolded(pattern: Seq<char>)
    ensures
        reference_selection(pattern) == {
            let cat = reference_catalog();
            let m0 = pattern_matches(pattern, cat[0].name);
            let m1 = pattern_matches(pattern, cat[1].name);
            if m0 && m1 {
                seq![cat[0], cat[1]]
            } else if m0 {
                seq![cat[0]]
            } else if m1 {
                seq![cat[1]]
            } else {
                Seq::<HeroView>::empty()
            }
        },
{
    reveal_with_fuel(Seq::filter, 4);
    let cat = reference_catalog();
    let p = |h: HeroView| pattern_matches(pattern, h.name);
    assert(cat.drop_last() =~= seq![cat[0]]);
    assert(seq![cat[0]].drop_last() =~= Seq::<HeroView>::empty());
    assert(Seq::<HeroView>::empty().filter(p) =~= Seq::<HeroView>::empty());
    if p(cat[0]) {
        assert(seq![cat[0]].filter(p) =~= seq![cat[0]]);
    } else {
        assert(seq![cat[0]].filter(p) =~= Seq::<HeroView>::empty());
    }
    if p(cat[0]) && p(cat[1]) {
        assert(cat.filter(p) =~= seq![cat[0], cat[1]]);
    } else if p(cat[0]) {
        assert(cat.filter(p) =~= seq![cat[0]]);
    } else if p(cat[1]) {
        assert(cat.filter(p) =~= seq![cat[1]]);
    } else {
        assert(cat.filter(p) =~= Seq::<HeroView>::empty());
    }
}

/// The default filter — the wildcard marker alone — selects the whole
/// catalog.
pub proof fn lemma_wildcard_selects_whole_catalog()
    ensures
        reference_selection(seq!['%']) == reference_catalog(),
{
    let cat = reference_catalog();
    lemma_wildcard_matches_all(cat[0].name);
    lemma_wildcard_matches_all(cat[1].name);
    lemma_reference_selection_unfolded(seq!['%']);
    assert(seq![cat[0], cat[1]] =~= cat);
}

impl HeroesRepositoryTrait for HeroesRepository {
    /// The reference lookup keeps [`find_by_name`]'s exact contract: the
    /// selection itself on success, `NotFound` as the only failure, and
    /// failure exactly when nothing matches.
    fn get_by_name(&self, name: &str) -> (r: Result<Vec<Hero>, DataAccessError>)
        ensures
            r matches Ok(v) ==> views_of(v@) == reference_selection(name@) && v@.len() > 0,
            r matches Err(e) ==> e == DataAccessError::NotFound,
            r is Err <==> reference_selection(name@).len() == 0,
    {
        self.find_by_name(name)
    }
}

} // verus!

//! Jazz standards broken down into their constituent bricks and joins.

use vstd::prelude::*;
use vstd::string::*;

use crate::chord::Note;
use crate::text::{
    chars_of, contains_chars, contains_seq, lemma_lex_total, lemma_lex_trans, lex_le, lex_le_chars,
    str_eq,
};

verus! {

broadcast use
    vstd::seq::Seq::add_empty_left,
    vstd::seq::Seq::add_empty_right,
    vstd::seq_lib::group_to_multiset_ensures,
    vstd::seq_lib::lemma_seq_contains_after_push,
;

/// A use of one brick inside a standard.
#[derive(Debug, Clone)]
pub struct BrickRef {
    /// The brick's name.
    pub brick_name: String,
    /// The bar it starts on, one-indexed.
    pub start_bar: u8,
    /// How many bars it lasts.
    pub duration_bars: u8,
    /// The key it is played in.
    pub key: Note,
    /// Remarks about this particular use.
    pub notes: Option<String>,
}

/// One section of a standard's form.
#[derive(Debug, Clone)]
pub struct StandardSection {
    /// The section label, such as `A1` or `B`.
    pub label: String,
    /// How many bars the section has.
    pub bars: u8,
    /// The bricks that make the section up.
    pub bricks: Vec<BrickRef>,
    /// The section's key centre.
    pub key: Note,
}

/// A complete standard, broken down by section.
#[derive(Debug)]
pub struct Standard {
    pub name: String,
    pub composer: String,
    pub year: Option<u16>,
    pub total_bars: u8,
    pub form: String,
    pub key: Note,
    pub tempo_range: (u16, u16),
    pub style: String,
    pub sections: Vec<StandardSection>,
    pub brick_summary: Vec<String>,
    pub joins_used: Vec<String>,
}

/// How demanding a standard is to learn.
#[derive(Debug, Clone, Copy, PartialEq, Eq, Structural)]
pub enum StandardDifficulty {
    Beginner,
    Intermediate,
    Advanced,
}

/// The brick names of one section, in order.
pub open spec fn section_brick_names(sec: StandardSection) -> Seq<Seq<char>> {
    sec.bricks@.map_values(|b: BrickRef| b.brick_name@)
}

/// The brick names of the sections from `i` on, in order.
pub open spec fn brick_names_from(sections: Seq<StandardSection>, i: int) -> Seq<Seq<char>>
    decreases sections.len() - i,
{
    if i < 0 || i >= sections.len() {
        Seq::empty()
    } else {
        section_brick_names(sections[i]) + brick_names_from(sections, i + 1)
    }
}

/// Every brick name used in the standard, in reading order.
pub open spec fn standard_brick_names(s: Standard) -> Seq<Seq<char>> {
    brick_names_from(s.sections@, 0)
}

/// Whether the standard uses a brick of the given name.
pub open spec fn spec_uses_brick(s: Standard, name: Seq<char>) -> bool {
    standard_brick_names(s).contains(name)
}

/// Whether some recorded join mentions the given name.
pub open spec fn spec_uses_join(s: Standard, name: Seq<char>) -> bool {
    exists|i: int| 0 <= i < s.joins_used@.len() && contains_seq((#[trigger] s.joins_used@[i])@, name)
}

/// How often the given name occurs among the brick names.
pub open spec fn count_name(names: Seq<Seq<char>>, n: Seq<char>) -> int
    decreases names.len(),
{
    if names.len() == 0 {
        0
    } else {
        count_name(names.drop_last(), n) + if names.last() == n {
            1int
        } else {
            0int
        }
    }
}

/// Appending one name raises exactly its own count.
proof fn lemma_count_push(names: Seq<Seq<char>>, x: Seq<char>, n: Seq<char>)
    ensures
        count_name(names.push(x), n) == count_name(names, n) + if x == n {
            1int
        } else {
            0int
        },
{
    assert(names.push(x).drop_last() =~= names);
    assert(names.push(x).last() == x);
}

/// How many distinct keys occur among the first `upto` section keys.
pub open spec fn distinct_count(keys: Seq<Note>, upto: int) -> int
    decreases upto,
{
    if upto <= 0 {
        0
    } else {
        distinct_count(keys, upto - 1) + if keys.subrange(0, upto - 1).contains(keys[upto - 1]) {
            0int
        } else {
            1int
        }
    }
}

/// The key centres of the standard's sections.
pub open spec fn section_keys(s: Standard) -> Seq<Note> {
    s.sections@.map_values(|sec: StandardSection| sec.key)
}

/// The difficulty assessment: few modulations and joins mean an easy
/// tune, many mean a hard one.
pub open spec fn spec_assess_difficulty(s: Standard) -> StandardDifficulty {
    let modulations = distinct_count(section_keys(s), section_keys(s).len() as int);
    let join_count = s.joins_used@.len() as int;
    if modulations <= 2 && join_count <= 2 {
        StandardDifficulty::Beginner
    } else if modulations <= 4 && join_count <= 5 {
        StandardDifficulty::Intermediate
    } else {
        StandardDifficulty::Advanced
    }
}

/// The view pairs of a name-and-count table.
pub open spec fn freq_views(v: Seq<(&str, usize)>) -> Seq<(Seq<char>, usize)> {
    v.map_values(|p: (&str, usize)| (p.0@, p.1))
}

impl Standard {
    /// The distinct brick names used in the standard, in dictionary
    /// order: neighbours strictly ascend, every listed name is used, and
    /// every used name is listed.
    pub fn unique_bricks(&self) -> (r: Vec<&str>)
        ensures
            forall|i: int|
                0 <= i < r@.len() - 1 ==> lex_le((#[trigger] r@[i])@, r@[i + 1]@) && r@[i]@ != r@[i
                    + 1]@,
            forall|i: int| 0 <= i < r@.len() ==> standard_brick_names(*self).contains((#[trigger] r@[i])@),
            forall|n: Seq<char>|
                #[trigger] standard_brick_names(*self).contains(n) ==> exists|i: int|
                    0 <= i < r@.len() && r@[i]@ == n,
    {
        let names = self.collect_brick_names();
        let ghost namesv = names@;
        proof {
            assert(names_of(namesv) =~= standard_brick_names(*self));
        }
        let sorted = sort_names(names);
        let ghost sortedv = sorted@;
        let r = dedup_names(sorted);
        proof {
            assert forall|i: int| 0 <= i < r@.len() implies standard_brick_names(*self).contains(
                (#[trigger] r@[i])@,
            ) by {
                assert(names_of(sortedv).contains(r@[i]@));
                assert(names_of(sortedv).to_multiset().count(r@[i]@) > 0);
                assert(names_of(namesv).to_multiset().count(r@[i]@) > 0);
                assert(names_of(namesv).contains(r@[i]@));
            }
            assert forall|n: Seq<char>| #[trigger] standard_brick_names(*self).contains(
                n,
            ) implies exists|i: int| 0 <= i < r@.len() && r@[i]@ == n by {
                assert(names_of(namesv).contains(n));
                assert(names_of(namesv).to_multiset().count(n) > 0);
                assert(names_of(sortedv).to_multiset().count(n) > 0);
                assert(names_of(sortedv).contains(n));
            }
        }
        r
    }

    /// How often each brick is used: one entry per distinct brick name
    /// with its exact count, most frequent first, and no used name
    /// missing.
    pub fn brick_frequency(&self) -> (r: Vec<(&str, usize)>)
        ensures
            forall|i: int|
                0 <= i < r@.len() ==> standard_brick_names(*self).contains((#[trigger] r@[i]).0@)
                    && r@[i].1 as int == count_name(standard_brick_names(*self), r@[i].0@),
            forall|i: int, j: int| 0 <= i < j < r@.len() ==> (#[trigger] r@[i]).1 >= (#[trigger] r@[j]).1,
            forall|n: Seq<char>|
                #[trigger] standard_brick_names(*self).contains(n) ==> exists|i: int|
                    0 <= i < r@.len() && r@[i].0@ == n,
    {
        let names = self.collect_brick_names();
        proof {
            assert(names_of(names@) =~= standard_brick_names(*self));
        }
        let counted = count_names(&names);
        let ghost pre = counted@;
        let sorted = sort_by_count(counted);
        proof {
            assert forall|i: int|
                0 <= i < sorted@.len() implies standard_brick_names(*self).contains(
                (#[trigger] sorted@[i]).0@,
            ) && sorted@[i].1 as int == count_name(
                standard_brick_names(*self),
                sorted@[i].0@,
            ) by {
                let x = (sorted@[i].0@, sorted@[i].1);
                assert(freq_views(sorted@)[i] == x);
                assert(freq_views(sorted@).contains(x));
                assert(freq_views(sorted@).to_multiset().count(x) > 0);
                assert(freq_views(pre).to_multiset().count(x) > 0);
                assert(freq_views(pre).contains(x));
                let j = choose|j: int|
                    0 <= j < freq_views(pre).len() && freq_views(pre)[j] == (
                    sorted@[i].0@,
                    sorted@[i].1,
                );
                assert(pre[j].0@ == sorted@[i].0@ && pre[j].1 == sorted@[i].1);
                assert(names_of(names@).contains(pre[j].0@));
            }
            assert forall|n: Seq<char>| #[trigger] standard_brick_names(*self).contains(
                n,
            ) implies exists|i: int| 0 <= i < sorted@.len() && sorted@[i].0@ == n by {
                assert(names_of(names@).contains(n));
                let j = choose|j: int| 0 <= j < pre.len() && (#[trigger] pre[j]).0@ == n;
                let x = (n, pre[j].1);
                assert(freq_views(pre)[j] == x);
                assert(freq_views(pre).contains(x));
                assert(freq_views(pre).to_multiset().count(x) > 0);
                assert(freq_views(sorted@).to_multiset().count(x) > 0);
                assert(freq_views(sorted@).contains(x));
                let k = choose|k: int|
                    0 <= k < freq_views(sorted@).len() && freq_views(sorted@)[k] == (
                    n,
                    pre[j].1,
                );
                assert(sorted@[k].0@ == n);
            }
        }
        sorted
    }

    /// Every brick name used, in reading order.
    fn collect_brick_names(&self) -> (r: Vec<&str>)
        ensures
            r@.len() == standard_brick_names(*self).len(),
            forall|i: int| 0 <= i < r@.len() ==> (#[trigger] r@[i])@ == standard_brick_names(*self)[i],
    {
        let mut r: Vec<&str> = Vec::new();
        let mut i: usize = 0;
        while i < self.sections.len()
            invariant
                i <= self.sections@.len(),
                brick_names_from(self.sections@, 0) =~= names_of(r@) + brick_names_from(
                    self.sections@,
                    i as int,
                ),
            decreases self.sections@.len() - i,
        {
            let section = &self.sections[i];
            let mut j: usize = 0;
            while j < section.bricks.len()
                invariant
                    i < self.sections@.len(),
                    section == &self.sections@[i as int],
                    j <= section.bricks@.len(),
                    brick_names_from(self.sections@, 0) =~= names_of(r@) + section_brick_names(
                        self.sections@[i as int],
                    ).subrange(j as int, section.bricks@.len() as int) + brick_names_from(
                        self.sections@,
                        i + 1,
                    ),
                decreases section.bricks@.len() - j,
            {
                let ghost prev = names_of(r@);
                r.push(section.bricks[j].brick_name.as_str());
                proof {
                    assert(names_of(r@) =~= prev.push(
                        section_brick_names(self.sections@[i as int])[j as int],
                    ));
                    assert(names_of(r@) + section_brick_names(self.sections@[i as int]).subrange(
                        j + 1,
                        section.bricks@.len() as int,
                    ) =~= prev + section_brick_names(self.sections@[i as int]).subrange(
                        j as int,
                        section.bricks@.len() as int,
                    ));
                }
                j += 1;
            }
            proof {
                assert(section_brick_names(self.sections@[i as int]).subrange(
                    section.bricks@.len() as int,
                    section.bricks@.len() as int,
                ) =~= Seq::<Seq<char>>::empty());
            }
            i += 1;
        }
        proof {
            assert(names_of(r@) =~= standard_brick_names(*self));
            assert forall|k: int| 0 <= k < r@.len() implies (#[trigger] r@[k])@
                == standard_brick_names(*self)[k] by {
                assert(names_of(r@)[k] == r@[k]@);
            }
        }
        r
    }
}

/// The views of a list of borrowed names.
pub open spec fn names_of(v: Seq<&str>) -> Seq<Seq<char>> {
    v.map_values(|s: &str| s@)
}

/// Arrange names in dictionary order; the result is a permutation.
fn sort_names(v: Vec<&str>) -> (r: Vec<&str>)
    ensures
        names_of(r@).to_multiset() == names_of(v@).to_multiset(),
        r@.len() == v@.len(),
        forall|i: int, j: int| 0 <= i < j < r@.len() ==> lex_le((#[trigger] r@[i])@, (#[trigger] r@[j])@),
{
    let ghost input = v@;
    let mut r = v;
    let mut i: usize = 1;
    while i < r.len()
        invariant
            r@.len() == input.len(),
            names_of(r@).to_multiset() == names_of(input).to_multiset(),
            1 <= i || r@.len() == 0,
            i <= r@.len() || r@.len() == 0,
            forall|a: int, b: int| 0 <= a < b < i ==> lex_le((#[trigger] r@[a])@, (#[trigger] r@[b])@),
        decreases r@.len() - i,
    {
        let mut j: usize = i;
        while j > 0
            invariant
                0 <= j <= i < r@.len(),
                r@.len() == input.len(),
                names_of(r@).to_multiset() == names_of(input).to_multiset(),
                forall|a: int, b: int|
                    0 <= a < b <= i && b != j ==> lex_le((#[trigger] r@[a])@, (#[trigger] r@[b])@),
                forall|a: int| j < a <= i ==> lex_le(r@[j as int]@, (#[trigger] r@[a])@),
            ensures
                0 <= j <= i < r@.len(),
                r@.len() == input.len(),
                names_of(r@).to_multiset() == names_of(input).to_multiset(),
                j > 0 ==> lex_le(r@[j - 1]@, r@[j as int]@),
                forall|a: int, b: int|
                    0 <= a < b <= i && b != j ==> lex_le((#[trigger] r@[a])@, (#[trigger] r@[b])@),
                forall|a: int| j < a <= i ==> lex_le(r@[j as int]@, (#[trigger] r@[a])@),
            decreases j,
        {
            if lex_le_chars(&chars_of(r[j - 1]), &chars_of(r[j])) {
                break;
            }
            proof {
                lemma_lex_total(r@[j - 1]@, r@[j as int]@);
            }
            let ghost before = r@;
            let moved = r.remove(j - 1);
            r.insert(j, moved);
            proof {
                assert(r@ =~= before.update(j - 1, before[j as int]).update(j as int, before[j - 1]));
                assert(names_of(r@) =~= names_of(before).update(j - 1, before[j as int]@).update(
                    j as int,
                    before[j - 1]@,
                ));
                assert(names_of(before).update(j - 1, names_of(before)[j as int]).update(
                    j as int,
                    names_of(before)[j - 1],
                ).to_multiset() =~= names_of(before).to_multiset());
            }
            j -= 1;
        }
        proof {
            let cur = r@;
            let jj = j as int;
            assert forall|a: int, b: int| 0 <= a < b <= i implies lex_le(
                (#[trigger] cur[a])@,
                (#[trigger] cur[b])@,
            ) by {
                if b == jj && jj > 0 && a < jj - 1 {
                    lemma_lex_trans(cur[a]@, cur[jj - 1]@, cur[jj]@);
                }
            }
        }
        i += 1;
    }
    r
}

/// Remove neighbouring duplicates from a dictionary-ordered name list:
/// neighbours of the result strictly ascend, everything kept was there,
/// and every name that was there is still represented.
fn dedup_names(v: Vec<&str>) -> (r: Vec<&str>)
    requires
        forall_sorted(v@),
    ensures
        forall|i: int|
            0 <= i < r@.len() - 1 ==> lex_le((#[trigger] r@[i])@, r@[i + 1]@) && r@[i]@ != r@[i
                + 1]@,
        forall|i: int| 0 <= i < r@.len() ==> names_of(v@).contains((#[trigger] r@[i])@),
        forall|n: Seq<char>|
            #[trigger] names_of(v@).contains(n) ==> exists|i: int| 0 <= i < r@.len() && r@[i]@ == n,
{
    let mut r: Vec<&str> = Vec::new();
    let mut i: usize = 0;
    while i < v.len()
        invariant
            forall_sorted(v@),
            i <= v@.len(),
            r@.len() <= i,
            forall|k: int|
                0 <= k < r@.len() - 1 ==> lex_le((#[trigger] r@[k])@, r@[k + 1]@) && r@[k]@ != r@[k
                    + 1]@,
            forall|k: int| 0 <= k < r@.len() ==> names_of(v@).contains((#[trigger] r@[k])@),
            forall|n: Seq<char>|
                #[trigger] names_of(v@.subrange(0, i as int)).contains(n) ==> exists|k: int|
                    0 <= k < r@.len() && r@[k]@ == n,
            i > 0 ==> r@.len() > 0 && r@.last()@ == v@[i - 1]@,
        decreases v@.len() - i,
    {
        let ghost r0 = r@;
        let keep = if i == 0 {
            true
        } else {
            !str_eq(v[i - 1], v[i])
        };
        if keep {
            proof {
                if i > 0 {
                    assert(lex_le((v@[i - 1])@, (v@[i as int])@));
                }
            }
            let ghost rpre = r@;
            r.push(v[i]);
            proof {
                assert(names_of(v@)[i as int] == v@[i as int]@);
                assert forall|k: int|
                    0 <= k < r@.len() - 1 implies lex_le((#[trigger] r@[k])@, r@[k + 1]@) && r@[k]@
                    != r@[k + 1]@ by {
                    if k < rpre.len() - 1 {
                        assert(r@[k] == rpre[k] && r@[k + 1] == rpre[k + 1]);
                    } else {
                        assert(r@[k] == rpre[rpre.len() - 1] && r@[k + 1] == v@[i as int]);
                    }
                }
            }
        }
        proof {
            let pre = names_of(v@.subrange(0, i as int));
            assert(names_of(v@.subrange(0, i + 1)) =~= pre.push(v@[i as int]@));
            assert forall|n: Seq<char>| #[trigger] names_of(v@.subrange(0, i + 1)).contains(
                n,
            ) implies exists|k: int| 0 <= k < r@.len() && r@[k]@ == n by {
                if n != v@[i as int]@ {
                    assert(names_of(v@.subrange(0, i as int)).contains(n));
                    let w = choose|w: int| 0 <= w < r0.len() && r0[w]@ == n;
                    assert(r@[w]@ == n);
                } else {
                    assert(r@[r@.len() - 1]@ == n);
                }
            }
        }
        i += 1;
    }
    proof {
        assert(v@.subrange(0, v@.len() as int) =~= v@);
    }
    r
}

/// Whether a name list ascends in dictionary order.
pub open spec fn forall_sorted(v: Seq<&str>) -> bool {
    forall|i: int, j: int| 0 <= i < j < v.len() ==> lex_le((#[trigger] v[i])@, (#[trigger] v[j])@)
}

/// Count each distinct name: one entry per name with its number of
/// occurrences, every name represented.
fn count_names<'a>(names: &Vec<&'a str>) -> (r: Vec<(&'a str, usize)>)
    ensures
        forall|i: int|
            0 <= i < r@.len() ==> names_of(names@).contains((#[trigger] r@[i]).0@) && r@[i].1 as int
                == count_name(names_of(names@), r@[i].0@),
        forall|i: int, j: int| 0 <= i < j < r@.len() ==> (#[trigger] r@[i]).0@ != (#[trigger] r@[j]).0@,
        forall|n: Seq<char>|
            #[trigger] names_of(names@).contains(n) ==> exists|i: int|
                0 <= i < r@.len() && r@[i].0@ == n,
{
    let mut r: Vec<(&str, usize)> = Vec::new();
    let mut k: usize = 0;
    proof {
        assert(names_of(names@.subrange(0, 0)) =~= Seq::<Seq<char>>::empty());
    }
    while k < names.len()
        invariant
            k <= names@.len(),
            forall|i: int|
                0 <= i < r@.len() ==> names_of(names@.subrange(0, k as int)).contains(
                    (#[trigger] r@[i]).0@,
                ) && r@[i].1 as int == count_name(
                    names_of(names@.subrange(0, k as int)),
                    r@[i].0@,
                ) && r@[i].1 >= 1,
            forall|i: int, j: int|
                0 <= i < j < r@.len() ==> (#[trigger] r@[i]).0@ != (#[trigger] r@[j]).0@,
            forall|n: Seq<char>|
                #[trigger] names_of(names@.subrange(0, k as int)).contains(n) ==> exists|i: int|
                    0 <= i < r@.len() && r@[i].0@ == n,
            forall|i: int| 0 <= i < r@.len() ==> (#[trigger] r@[i]).1 <= k,
        decreases names@.len() - k,
    {
        let name = names[k];
        let ghost r0 = r@;
        let ghost preseq = names_of(names@.subrange(0, k as int));
        proof {
            assert(names_of(names@.subrange(0, k + 1)) =~= preseq.push(name@));
        }
        let found = find_name(&r, name);
        match found {
            Some(idx) => {
                let (nm, c) = r[idx];
                r.set(idx, (nm, c + 1));
                proof {
                    assert forall|i: int|
                        0 <= i < r@.len() implies names_of(names@.subrange(0, k + 1)).contains(
                        (#[trigger] r@[i]).0@,
                    ) && r@[i].1 as int == count_name(
                        names_of(names@.subrange(0, k + 1)),
                        r@[i].0@,
                    ) && r@[i].1 >= 1 by {
                        lemma_count_push(preseq, name@, r@[i].0@);
                        if i != idx {
                            assert(preseq.contains(r@[i].0@));
                            assert(r@[i].0@ != name@);
                        } else {
                            assert(r@[i].0@ == name@);
                        }
                    }
                    assert forall|n: Seq<char>| #[trigger] names_of(
                        names@.subrange(0, k + 1),
                    ).contains(n) implies exists|i2: int|
                        0 <= i2 < r@.len() && r@[i2].0@ == n by {
                        if n != name@ {
                            assert(names_of(names@.subrange(0, k as int)).contains(n));
                            let w = choose|w: int| 0 <= w < r0.len() && r0[w].0@ == n;
                            assert(r@[w].0@ == n);
                        } else {
                            assert(r@[idx as int].0@ == n);
                        }
                    }
                }
            },
            None => {
                r.push((name, 1));
                proof {
                    assert forall|i: int|
                        0 <= i < r@.len() implies names_of(names@.subrange(0, k + 1)).contains(
                        (#[trigger] r@[i]).0@,
                    ) && r@[i].1 as int == count_name(
                        names_of(names@.subrange(0, k + 1)),
                        r@[i].0@,
                    ) && r@[i].1 >= 1 by {
                        lemma_count_push(preseq, name@, r@[i].0@);
                        if i < r@.len() - 1 {
                            assert(preseq.contains(r@[i].0@));
                            assert(count_name(preseq, r@[i].0@) == r@[i].1 as int);
                        } else {
                            assert(r@[i].0@ == name@);
                            lemma_absent_count(preseq, name@);
                        }
                    }
                    assert forall|n: Seq<char>| #[trigger] names_of(
                        names@.subrange(0, k + 1),
                    ).contains(n) implies exists|i2: int|
                        0 <= i2 < r@.len() && r@[i2].0@ == n by {
                        if n != name@ {
                            assert(names_of(names@.subrange(0, k as int)).contains(n));
                            let w = choose|w: int| 0 <= w < r0.len() && r0[w].0@ == n;
                            assert(r@[w].0@ == n);
                        } else {
                            assert(r@[r@.len() - 1].0@ == n);
                        }
                    }
                }
            },
        }
        k += 1;
    }
    proof {
        assert(names@.subrange(0, names@.len() as int) =~= names@);
    }
    r
}

/// A name that never occurs has count zero.
proof fn lemma_absent_count(names: Seq<Seq<char>>, n: Seq<char>)
    requires
        !names.contains(n),
    ensures
        count_name(names, n) == 0,
    decreases names.len(),
{
    if names.len() > 0 {
        assert(names.last() != n) by {
            assert(names[names.len() - 1] == names.last());
        };
        assert(!names.drop_last().contains(n)) by {
            if names.drop_last().contains(n) {
                let w = choose|w: int|
                    0 <= w < names.drop_last().len() && names.drop_last()[w] == n;
                assert(names[w] == n);
            }
        };
        lemma_absent_count(names.drop_last(), n);
    }
}

/// Find a name in the count table.
fn find_name<'a>(r: &Vec<(&'a str, usize)>, name: &str) -> (res: Option<usize>)
    ensures
        match res {
            Some(i) => i < r@.len() && (r@[i as int]).0@ == name@,
            None => forall|i: int| 0 <= i < r@.len() ==> (#[trigger] r@[i]).0@ != name@,
        },
{
    let mut i: usize = 0;
    while i < r.len()
        invariant
            i <= r@.len(),
            forall|j: int| 0 <= j < i ==> (#[trigger] r@[j]).0@ != name@,
        decreases r@.len() - i,
    {
        if str_eq(r[i].0, name) {
            return Some(i);
        }
        i += 1;
    }
    None
}

/// Arrange count entries most frequent first; the result is a
/// permutation of the input, seen through views.
fn sort_by_count<'a>(v: Vec<(&'a str, usize)>) -> (r: Vec<(&'a str, usize)>)
    ensures
        r@.len() == v@.len(),
        freq_views(r@).to_multiset() == freq_views(v@).to_multiset(),
        forall|i: int, j: int| 0 <= i < j < r@.len() ==> (#[trigger] r@[i]).1 >= (#[trigger] r@[j]).1,
{
    let ghost input = v@;
    let mut r = v;
    let mut i: usize = 1;
    while i < r.len()
        invariant
            r@.len() == input.len(),
            freq_views(r@).to_multiset() == freq_views(input).to_multiset(),
            1 <= i || r@.len() == 0,
            i <= r@.len() || r@.len() == 0,
            forall|a: int, b: int| 0 <= a < b < i ==> (#[trigger] r@[a]).1 >= (#[trigger] r@[b]).1,
        decreases r@.len() - i,
    {
        let mut j: usize = i;
        while j > 0
            invariant
                0 <= j <= i < r@.len(),
                r@.len() == input.len(),
                freq_views(r@).to_multiset() == freq_views(input).to_multiset(),
                forall|a: int, b: int|
                    0 <= a < b <= i && b != j ==> (#[trigger] r@[a]).1 >= (#[trigger] r@[b]).1,
                forall|a: int| j < a <= i ==> r@[j as int].1 >= (#[trigger] r@[a]).1,
            ensures
                0 <= j <= i < r@.len(),
                r@.len() == input.len(),
                freq_views(r@).to_multiset() == freq_views(input).to_multiset(),
                j > 0 ==> r@[j - 1].1 >= r@[j as int].1,
                forall|a: int, b: int|
                    0 <= a < b <= i && b != j ==> (#[trigger] r@[a]).1 >= (#[trigger] r@[b]).1,
                forall|a: int| j < a <= i ==> r@[j as int].1 >= (#[trigger] r@[a]).1,
            decreases j,
        {
            if r[j - 1].1 >= r[j].1 {
                break;
            }
            let ghost before = r@;
            let moved = r.remove(j - 1);
            r.insert(j, moved);
            proof {
                assert(r@ =~= before.update(j - 1, before[j as int]).update(j as int, before[j - 1]));
                assert(freq_views(r@) =~= freq_views(before).update(
                    j - 1,
                    freq_views(before)[j as int],
                ).update(j as int, freq_views(before)[j - 1]));
                assert(freq_views(before).update(j - 1, freq_views(before)[j as int]).update(
                    j as int,
                    freq_views(before)[j - 1],
                ).to_multiset() =~= freq_views(before).to_multiset());
            }
            j -= 1;
        }
        i += 1;
    }
    r
}

/// Whether the standard uses a brick of the given name.
fn standard_uses_brick(s: &Standard, name: &str) -> (r: bool)
    ensures
        r == spec_uses_brick(*s, name@),
{
    let mut i: usize = 0;
    while i < s.sections.len()
        invariant
            i <= s.sections@.len(),
            standard_brick_names(*s) =~= brick_names_from(s.sections@, 0),
            forall|k: int|
                0 <= k < i ==> !section_brick_names(#[trigger] s.sections@[k]).contains(name@),
        decreases s.sections@.len() - i,
    {
        let section = &s.sections[i];
        let mut j: usize = 0;
        while j < section.bricks.len()
            invariant
                i < s.sections@.len(),
                section == &s.sections@[i as int],
                j <= section.bricks@.len(),
                forall|k: int|
                    0 <= k < j ==> (#[trigger] section.bricks@[k]).brick_name@ != name@,
            decreases section.bricks@.len() - j,
        {
            if str_eq(section.bricks[j].brick_name.as_str(), name) {
                proof {
                    lemma_brick_name_member(s.sections@, i as int, j as int);
                }
                return true;
            }
            j += 1;
        }
        proof {
            assert forall|k: int|
                0 <= k < section_brick_names(s.sections@[i as int]).len() implies section_brick_names(
                s.sections@[i as int],
            )[k] != name@ by {
                assert(section_brick_names(s.sections@[i as int])[k]
                    == s.sections@[i as int].bricks@[k].brick_name@);
            }
        }
        i += 1;
    }
    proof {
        lemma_no_brick_name(s.sections@, 0, name@);
    }
    false
}

/// A brick name inside some section is among the standard's names.
proof fn lemma_brick_name_member(sections: Seq<StandardSection>, i: int, j: int)
    requires
        0 <= i < sections.len(),
        0 <= j < sections[i].bricks@.len(),
    ensures
        brick_names_from(sections, 0).contains(sections[i].bricks@[j].brick_name@),
    decreases i,
{
    if i == 0 {
        assert(section_brick_names(sections[0])[j] == sections[0].bricks@[j].brick_name@);
        assert(brick_names_from(sections, 0)[j] == sections[0].bricks@[j].brick_name@);
    } else {
        lemma_brick_name_member(sections.drop_first(), i - 1, j);
        assert(sections.drop_first()[i - 1] == sections[i]);
        let tail = brick_names_from(sections.drop_first(), 0);
        lemma_brick_names_shift(sections);
        let w = choose|w: int|
            0 <= w < tail.len() && tail[w] == sections[i].bricks@[j].brick_name@;
        assert(brick_names_from(sections, 0)[section_brick_names(sections[0]).len() + w]
            == sections[i].bricks@[j].brick_name@);
    }
}

/// The name list of a section sequence starts with its head section.
proof fn lemma_brick_names_shift(sections: Seq<StandardSection>)
    requires
        sections.len() > 0,
    ensures
        brick_names_from(sections, 0) == section_brick_names(sections[0]) + brick_names_from(
            sections.drop_first(),
            0,
        ),
    decreases sections.len(),
{
    lemma_brick_names_from_drop(sections, 1);
}

/// Names from position `i` of a sequence equal the names of the
/// sequence with its first `i` sections dropped.
proof fn lemma_brick_names_from_drop(sections: Seq<StandardSection>, i: int)
    requires
        0 <= i <= sections.len(),
    ensures
        brick_names_from(sections, i) == brick_names_from(
            sections.subrange(i, sections.len() as int),
            0,
        ),
    decreases sections.len() - i,
{
    let rest = sections.subrange(i, sections.len() as int);
    if i < sections.len() {
        lemma_brick_names_from_drop(sections, i + 1);
        assert(rest[0] == sections[i]);
        assert(rest.subrange(1, rest.len() as int) =~= sections.subrange(
            i + 1,
            sections.len() as int,
        ));
        assert(brick_names_from(rest, 0) == section_brick_names(rest[0]) + brick_names_from(
            rest,
            1,
        ));
        lemma_brick_names_from_drop_inner(rest);
    } else {
        assert(rest.len() == 0);
    }
}

/// Names from position 1 equal the names of the tail.
proof fn lemma_brick_names_from_drop_inner(sections: Seq<StandardSection>)
    requires
        sections.len() > 0,
    ensures
        brick_names_from(sections, 1) == brick_names_from(sections.drop_first(), 0),
    decreases sections.len(),
{
    lemma_from_offset(sections, 1);
}

/// Names from offset `i` of `sections` match names from offset `i - 1`
/// of the tail.
proof fn lemma_from_offset(sections: Seq<StandardSection>, i: int)
    requires
        1 <= i <= sections.len(),
    ensures
        brick_names_from(sections, i) == brick_names_from(sections.drop_first(), i - 1),
    decreases sections.len() - i,
{
    if i < sections.len() {
        lemma_from_offset(sections, i + 1);
        assert(sections.drop_first()[i - 1] == sections[i]);
    }
}

/// No section from `i` on mentions the name.
proof fn lemma_no_brick_name(sections: Seq<StandardSection>, i: int, name: Seq<char>)
    requires
        0 <= i <= sections.len(),
        forall|k: int|
            i <= k < sections.len() ==> !section_brick_names(#[trigger] sections[k]).contains(name),
    ensures
        !brick_names_from(sections, i).contains(name),
    decreases sections.len() - i,
{
    if i < sections.len() {
        lemma_no_brick_name(sections, i + 1, name);
        assert forall|w: int|
            0 <= w < brick_names_from(sections, i).len() implies brick_names_from(sections, i)[w]
            != name by {
            let head = section_brick_names(sections[i]);
            let rest = brick_names_from(sections, i + 1);
            if w < head.len() {
                assert(brick_names_from(sections, i)[w] == head[w]);
            } else {
                assert(brick_names_from(sections, i)[w] == rest[w - head.len()]);
                assert(rest[w - head.len()] != name);
            }
        }
    }
}

/// Whether some recorded join of the standard mentions the name.
fn standard_uses_join(s: &Standard, name: &str) -> (r: bool)
    ensures
        r == spec_uses_join(*s, name@),
{
    let needle = chars_of(name);
    let mut i: usize = 0;
    while i < s.joins_used.len()
        invariant
            needle@ == name@,
            i <= s.joins_used@.len(),
            forall|k: int|
                0 <= k < i ==> !contains_seq((#[trigger] s.joins_used@[k])@, name@),
        decreases s.joins_used@.len() - i,
    {
        let hay = chars_of(s.joins_used[i].as_str());
        if contains_chars(&hay, &needle) {
            return true;
        }
        i += 1;
    }
    false
}

/// Whether a list of keys holds the given one.
fn contains_note(v: &Vec<Note>, n: Note) -> (b: bool)
    ensures
        b == v@.contains(n),
{
    let mut i: usize = 0;
    while i < v.len()
        invariant
            i <= v@.len(),
            forall|j: int| 0 <= j < i ==> v@[j] != n,
        decreases v@.len() - i,
    {
        if v[i] == n {
            return true;
        }
        i += 1;
    }
    false
}

/// The difficulty of a standard, judged by its modulations and joins.
fn assess_difficulty(s: &Standard) -> (r: StandardDifficulty)
    ensures
        r == spec_assess_difficulty(*s),
{
    let mut seen: Vec<Note> = Vec::new();
    let mut i: usize = 0;
    let mut count: usize = 0;
    while i < s.sections.len()
        invariant
            i <= s.sections@.len(),
            count as int == distinct_count(section_keys(*s), i as int),
            count <= i,
            forall|n: Note|
                seen@.contains(n) <==> section_keys(*s).subrange(0, i as int).contains(n),
        decreases s.sections@.len() - i,
    {
        let key = s.sections[i].key;
        proof {
            assert(section_keys(*s)[i as int] == key);
        }
        let already = contains_note(&seen, key);
        if !already {
            count = count + 1;
            seen.push(key);
        }
        proof {
            broadcast use vstd::seq_lib::lemma_seq_contains_after_push;

            assert(section_keys(*s).subrange(0, i + 1) =~= section_keys(*s).subrange(
                0,
                i as int,
            ).push(key));
        }
        i += 1;
    }
    proof {
        assert(section_keys(*s).subrange(0, section_keys(*s).len() as int) =~= section_keys(*s));
    }
    let join_count = s.joins_used.len();
    if count <= 2 && join_count <= 2 {
        StandardDifficulty::Beginner
    } else if count <= 4 && join_count <= 5 {
        StandardDifficulty::Intermediate
    } else {
        StandardDifficulty::Advanced
    }
}

/// The library of standards the trainer knows.
#[derive(Debug)]
pub struct StandardsLibrary {
    standards: Vec<Standard>,
}

impl StandardsLibrary {
    /// The standards, in library order.
    pub closed spec fn view(self) -> Seq<Standard> {
        self.standards@
    }

    /// Build the library of analysed standards.
    pub fn new() -> (r: StandardsLibrary)
        ensures
            r@.len() == 4,
            r@[0].name@ == "Autumn Leaves"@ && r@[0].total_bars == 32,
            r@[1].name@ == "All The Things You Are"@ && r@[1].total_bars == 36,
            r@[2].name@ == "Blue Bossa"@ && r@[2].total_bars == 16,
            r@[3].name@ == "Rhythm Changes (I Got Rhythm)"@ && r@[3].total_bars == 32,
            standard_brick_names(r@[0]) == seq![
                "Launcher"@,
                "Sad Launcher"@,
                "Launcher"@,
                "Sad Launcher"@,
                "Long Approach"@,
                "Launcher"@,
                "Sad Launcher"@,
            ],
            standard_brick_names(r@[1]) == seq![
                "Launcher"@,
                "Launcher"@,
                "Launcher"@,
                "Launcher"@,
                "Launcher"@,
                "Launcher"@,
                "Launcher"@,
                "Dizzy"@,
                "Overrun"@,
            ],
            standard_brick_names(r@[2]) == seq!["Sad Launcher"@, "Launcher"@, "Sad Launcher"@],
            standard_brick_names(r@[3]) == seq![
                "Rhythm"@,
                "Rhythm"@,
                "Long Approach"@,
                "Rhythm"@,
            ],
    {
        let mut standards: Vec<Standard> = Vec::new();
        standards.push(autumn_leaves());
        standards.push(all_the_things_you_are());
        standards.push(blue_bossa());
        standards.push(rhythm_changes());
        StandardsLibrary { standards }
    }

    /// All standards, in library order.
    pub fn all(&self) -> (r: &[Standard])
        ensures
            r@ == self@,
    {
        self.standards.as_slice()
    }

    /// Look a standard up by name; the first with that name, if any.
    pub fn get(&self, name: &str) -> (r: Option<&Standard>)
        ensures
            match r {
                Some(s) => exists|i: int|
                    0 <= i < self@.len() && *s == self@[i] && (#[trigger] self@[i]).name@ == name@,
                None => forall|i: int| 0 <= i < self@.len() ==> (#[trigger] self@[i]).name@ != name@,
            },
    {
        let mut i: usize = 0;
        while i < self.standards.len()
            invariant
                self@ == self.standards@,
                i <= self@.len(),
                forall|k: int| 0 <= k < i ==> (#[trigger] self@[k]).name@ != name@,
            decreases self@.len() - i,
        {
            if str_eq(self.standards[i].name.as_str(), name) {
                return Some(&self.standards[i]);
            }
            i += 1;
        }
        None
    }

    /// The standards that use the given brick.
    pub fn using_brick(&self, brick_name: &str) -> (r: Vec<&Standard>)
        ensures
            r@.len() == self@.filter(|s: Standard| spec_uses_brick(s, brick_name@)).len(),
            forall|i: int|
                0 <= i < r@.len() ==> *(#[trigger] r@[i]) == self@.filter(
                    |s: Standard| spec_uses_brick(s, brick_name@),
                )[i],
    {
        let mut r: Vec<&Standard> = Vec::new();
        let mut i: usize = 0;
        proof {
            assert(self@.subrange(0, 0) =~= Seq::<Standard>::empty());
            assert(Seq::<Standard>::empty().filter(|s: Standard| spec_uses_brick(s, brick_name@))
                =~= Seq::<Standard>::empty());
        }
        while i < self.standards.len()
            invariant
                self@ == self.standards@,
                i <= self@.len(),
                r@.len() == self@.subrange(0, i as int).filter(
                    |s: Standard| spec_uses_brick(s, brick_name@),
                ).len(),
                forall|k: int|
                    0 <= k < r@.len() ==> *(#[trigger] r@[k]) == self@.subrange(0, i as int).filter(
                        |s: Standard| spec_uses_brick(s, brick_name@),
                    )[k],
            decreases self@.len() - i,
        {
            proof {
                let pre = self@.subrange(0, i as int);
                assert(self@.subrange(0, i + 1) =~= pre.push(self@[i as int]));
                pre.lemma_filter_push(
                    self@[i as int],
                    |s: Standard| spec_uses_brick(s, brick_name@),
                );
            }
            if standard_uses_brick(&self.standards[i], brick_name) {
                r.push(&self.standards[i]);
            }
            i += 1;
        }
        proof {
            assert(self@.subrange(0, self@.len() as int) =~= self@);
        }
        r
    }

    /// The standards whose recorded joins mention the given name.
    pub fn using_join(&self, join_name: &str) -> (r: Vec<&Standard>)
        ensures
            r@.len() == self@.filter(|s: Standard| spec_uses_join(s, join_name@)).len(),
            forall|i: int|
                0 <= i < r@.len() ==> *(#[trigger] r@[i]) == self@.filter(
                    |s: Standard| spec_uses_join(s, join_name@),
                )[i],
    {
        let mut r: Vec<&Standard> = Vec::new();
        let mut i: usize = 0;
        proof {
            assert(self@.subrange(0, 0) =~= Seq::<Standard>::empty());
            assert(Seq::<Standard>::empty().filter(|s: Standard| spec_uses_join(s, join_name@))
                =~= Seq::<Standard>::empty());
        }
        while i < self.standards.len()
            invariant
                self@ == self.standards@,
                i <= self@.len(),
                r@.len() == self@.subrange(0, i as int).filter(
                    |s: Standard| spec_uses_join(s, join_name@),
                ).len(),
                forall|k: int|
                    0 <= k < r@.len() ==> *(#[trigger] r@[k]) == self@.subrange(0, i as int).filter(
                        |s: Standard| spec_uses_join(s, join_name@),
                    )[k],
            decreases self@.len() - i,
        {
            proof {
                let pre = self@.subrange(0, i as int);
                assert(self@.subrange(0, i + 1) =~= pre.push(self@[i as int]));
                pre.lemma_filter_push(self@[i as int], |s: Standard| spec_uses_join(s, join_name@));
            }
            if standard_uses_join(&self.standards[i], join_name) {
                r.push(&self.standards[i]);
            }
            i += 1;
        }
        proof {
            assert(self@.subrange(0, self@.len() as int) =~= self@);
        }
        r
    }

    /// The standards at a difficulty level.
    pub fn by_difficulty(&self, level: StandardDifficulty) -> (r: Vec<&Standard>)
        ensures
            r@.len() == self@.filter(|s: Standard| spec_assess_difficulty(s) == level).len(),
            forall|i: int|
                0 <= i < r@.len() ==> *(#[trigger] r@[i]) == self@.filter(
                    |s: Standard| spec_assess_difficulty(s) == level,
                )[i],
    {
        let mut r: Vec<&Standard> = Vec::new();
        let mut i: usize = 0;
        proof {
            assert(self@.subrange(0, 0) =~= Seq::<Standard>::empty());
            assert(Seq::<Standard>::empty().filter(
                |s: Standard| spec_assess_difficulty(s) == level,
            ) =~= Seq::<Standard>::empty());
        }
        while i < self.standards.len()
            invariant
                self@ == self.standards@,
                i <= self@.len(),
                r@.len() == self@.subrange(0, i as int).filter(
                    |s: Standard| spec_assess_difficulty(s) == level,
                ).len(),
                forall|k: int|
                    0 <= k < r@.len() ==> *(#[trigger] r@[k]) == self@.subrange(0, i as int).filter(
                        |s: Standard| spec_assess_difficulty(s) == level,
                    )[k],
            decreases self@.len() - i,
        {
            proof {
                let pre = self@.subrange(0, i as int);
                assert(self@.subrange(0, i + 1) =~= pre.push(self@[i as int]));
                pre.lemma_filter_push(
                    self@[i as int],
                    |s: Standard| spec_assess_difficulty(s) == level,
                );
            }
            let d = assess_difficulty(&self.standards[i]);
            if d == level {
                r.push(&self.standards[i]);
            }
            i += 1;
        }
        proof {
            assert(self@.subrange(0, self@.len() as int) =~= self@);
        }
        r
    }
}

/// The brick names of a four-section standard are its sections' names
/// in order.
proof fn lemma_section_names_4(
    s: Standard,
    n0: Seq<Seq<char>>,
    n1: Seq<Seq<char>>,
    n2: Seq<Seq<char>>,
    n3: Seq<Seq<char>>,
)
    requires
        s.sections@.len() == 4,
        section_brick_names(s.sections@[0]) == n0,
        section_brick_names(s.sections@[1]) == n1,
        section_brick_names(s.sections@[2]) == n2,
        section_brick_names(s.sections@[3]) == n3,
    ensures
        standard_brick_names(s) == n0 + n1 + n2 + n3,
{
    assert(brick_names_from(s.sections@, 4) == Seq::<Seq<char>>::empty());
    assert(brick_names_from(s.sections@, 3) =~= n3);
    assert(brick_names_from(s.sections@, 2) =~= n2 + n3);
    assert(brick_names_from(s.sections@, 1) =~= n1 + (n2 + n3));
    assert(brick_names_from(s.sections@, 0) =~= n0 + n1 + n2 + n3);
}

/// The brick names of a two-section standard are its sections' names in
/// order.
proof fn lemma_section_names_2(s: Standard, n0: Seq<Seq<char>>, n1: Seq<Seq<char>>)
    requires
        s.sections@.len() == 2,
        section_brick_names(s.sections@[0]) == n0,
        section_brick_names(s.sections@[1]) == n1,
    ensures
        standard_brick_names(s) == n0 + n1,
{
    assert(brick_names_from(s.sections@, 2) == Seq::<Seq<char>>::empty());
    assert(brick_names_from(s.sections@, 1) =~= n1);
    assert(brick_names_from(s.sections@, 0) =~= n0 + n1);
}

/// One brick reference from plain values.
fn brick_ref(name: &str, start_bar: u8, duration_bars: u8, key: Note, notes: Option<&str>) -> (r:
    BrickRef)
    ensures
        r.brick_name@ == name@,
        r.start_bar == start_bar,
        r.duration_bars == duration_bars,
        r.key == key,
{
    BrickRef {
        brick_name: String::from_str(name),
        start_bar,
        duration_bars,
        key,
        notes: match notes {
            Some(n) => Some(String::from_str(n)),
            None => None,
        },
    }
}

/// One section from plain values.
fn section(label: &str, bars: u8, key: Note, bricks: Vec<BrickRef>) -> (r: StandardSection)
    ensures
        r.label@ == label@,
        r.bars == bars,
        r.key == key,
        r.bricks == bricks,
{
    StandardSection { label: String::from_str(label), bars, bricks, key }
}

/// Owned copies of a list of summary lines.
fn strings(lines: Vec<&str>) -> (r: Vec<String>)
    ensures
        r@.len() == lines@.len(),
{
    let mut r: Vec<String> = Vec::new();
    let mut i: usize = 0;
    while i < lines.len()
        invariant
            i <= lines@.len(),
            r@.len() == i,
        decreases lines@.len() - i,
    {
        r.push(String::from_str(lines[i]));
        i += 1;
    }
    r
}

/// The study piece of nested two-five-one cadences.
fn autumn_leaves() -> (r: Standard)
    ensures
        r.name@ == "Autumn Leaves"@,
        r.total_bars == 32,
        standard_brick_names(r) == seq![
            "Launcher"@,
            "Sad Launcher"@,
            "Launcher"@,
            "Sad Launcher"@,
            "Long Approach"@,
            "Launcher"@,
            "Sad Launcher"@,
        ],
{
    let s = Standard {
        name: String::from_str("Autumn Leaves"),
        composer: String::from_str("Joseph Kosma"),
        year: Some(1945),
        total_bars: 32,
        form: String::from_str("AABA"),
        key: Note::G,
        tempo_range: (100, 180),
        style: String::from_str("Medium swing"),
        sections: vec![
            section(
                "A1",
                8,
                Note::G,
                vec![
                    brick_ref("Launcher", 1, 4, Note::Bb, Some("Relative major ii-V-I")),
                    brick_ref("Sad Launcher", 5, 4, Note::G, Some("Minor ii-V-i to tonic")),
                ],
            ),
            section(
                "A2",
                8,
                Note::G,
                vec![
                    brick_ref("Launcher", 9, 4, Note::Bb, None),
                    brick_ref("Sad Launcher", 13, 4, Note::G, None),
                ],
            ),
            section(
                "B",
                8,
                Note::Bb,
                vec![brick_ref("Long Approach", 17, 8, Note::Bb, Some("Extended approach to Bb"))],
            ),
            section(
                "A3",
                8,
                Note::G,
                vec![
                    brick_ref("Launcher", 25, 4, Note::Bb, None),
                    brick_ref("Sad Launcher", 29, 4, Note::G, Some("Final resolution")),
                ],
            ),
        ],
        brick_summary: strings(vec!["Launcher x3", "Sad Launcher x3", "Long Approach x1"]),
        joins_used: strings(vec!["High Jump (Bb -> G minor)"]),
    };
    proof {
        assert(section_brick_names(s.sections@[0]) =~= seq!["Launcher"@, "Sad Launcher"@]);
        assert(section_brick_names(s.sections@[1]) =~= seq!["Launcher"@, "Sad Launcher"@]);
        assert(section_brick_names(s.sections@[2]) =~= seq!["Long Approach"@]);
        assert(section_brick_names(s.sections@[3]) =~= seq!["Launcher"@, "Sad Launcher"@]);
        lemma_section_names_4(
            s,
            seq!["Launcher"@, "Sad Launcher"@],
            seq!["Launcher"@, "Sad Launcher"@],
            seq!["Long Approach"@],
            seq!["Launcher"@, "Sad Launcher"@],
        );
        assert(standard_brick_names(s) =~= seq![
            "Launcher"@,
            "Sad Launcher"@,
            "Launcher"@,
            "Sad Launcher"@,
            "Long Approach"@,
            "Launcher"@,
            "Sad Launcher"@,
        ]);
    }
    s
}

/// The modulation showcase.
fn all_the_things_you_are() -> (r: Standard)
    ensures
        r.name@ == "All The Things You Are"@,
        r.total_bars == 36,
        standard_brick_names(r) == seq![
            "Launcher"@,
            "Launcher"@,
            "Launcher"@,
            "Launcher"@,
            "Launcher"@,
            "Launcher"@,
            "Launcher"@,
            "Dizzy"@,
            "Overrun"@,
        ],
{
    let s = Standard {
        name: String::from_str("All The Things You Are"),
        composer: String::from_str("Jerome Kern"),
        year: Some(1939),
        total_bars: 36,
        form: String::from_str("AABA"),
        key: Note::Ab,
        tempo_range: (120, 200),
        style: String::from_str("Medium up swing"),
        sections: vec![
            section(
                "A1",
                8,
                Note::Ab,
                vec![
                    brick_ref("Launcher", 1, 4, Note::Ab, Some("Opens in Ab")),
                    brick_ref("Launcher", 5, 4, Note::C, Some("Modulates to C")),
                ],
            ),
            section(
                "A2",
                8,
                Note::Eb,
                vec![
                    brick_ref("Launcher", 9, 4, Note::Eb, Some("Modulates to Eb")),
                    brick_ref("Launcher", 13, 4, Note::G, Some("Sets up bridge")),
                ],
            ),
            section(
                "B",
                8,
                Note::E,
                vec![
                    brick_ref("Launcher", 17, 4, Note::E, Some("Distant key center")),
                    brick_ref("Launcher", 21, 4, Note::Ab, Some("Returns to tonic")),
                ],
            ),
            section(
                "A3",
                12,
                Note::Ab,
                vec![
                    brick_ref("Launcher", 25, 4, Note::Ab, None),
                    brick_ref("Dizzy", 29, 4, Note::Ab, Some("Tritone sub turnaround")),
                    brick_ref("Overrun", 33, 4, Note::Ab, Some("Extended ending")),
                ],
            ),
        ],
        brick_summary: strings(vec!["Launcher x7", "Dizzy x1", "Overrun x1"]),
        joins_used: strings(
            vec![
                "High Jump (Ab -> C)",
                "Cherokee (C -> Eb)",
                "High Jump (Eb -> G)",
                "Ladybird (G -> E)",
                "Cherokee (E -> Ab)",
            ],
        ),
    };
    proof {
        assert(section_brick_names(s.sections@[0]) =~= seq!["Launcher"@, "Launcher"@]);
        assert(section_brick_names(s.sections@[1]) =~= seq!["Launcher"@, "Launcher"@]);
        assert(section_brick_names(s.sections@[2]) =~= seq!["Launcher"@, "Launcher"@]);
        assert(section_brick_names(s.sections@[3]) =~= seq![
            "Launcher"@,
            "Dizzy"@,
            "Overrun"@,
        ]);
        lemma_section_names_4(
            s,
            seq!["Launcher"@, "Launcher"@],
            seq!["Launcher"@, "Launcher"@],
            seq!["Launcher"@, "Launcher"@],
            seq!["Launcher"@, "Dizzy"@, "Overrun"@],
        );
        assert(standard_brick_names(s) =~= seq![
            "Launcher"@,
            "Launcher"@,
            "Launcher"@,
            "Launcher"@,
            "Launcher"@,
            "Launcher"@,
            "Launcher"@,
            "Dizzy"@,
            "Overrun"@,
        ]);
    }
    s
}

/// The bossa nova staple.
fn blue_bossa() -> (r: Standard)
    ensures
        r.name@ == "Blue Bossa"@,
        r.total_bars == 16,
        standard_brick_names(r) == seq!["Sad Launcher"@, "Launcher"@, "Sad Launcher"@],
{
    let s = Standard {
        name: String::from_str("Blue Bossa"),
        composer: String::from_str("Kenny Dorham"),
        year: Some(1963),
        total_bars: 16,
        form: String::from_str("AB"),
        key: Note::C,
        tempo_range: (120, 160),
        style: String::from_str("Bossa nova"),
        sections: vec![
            section(
                "A",
                8,
                Note::C,
                vec![brick_ref("Sad Launcher", 1, 8, Note::C, Some("Minor ii-V-i in C minor"))],
            ),
            section(
                "B",
                8,
                Note::Db,
                vec![
                    brick_ref("Launcher", 9, 4, Note::Db, Some("Brief modulation to Db")),
                    brick_ref("Sad Launcher", 13, 4, Note::C, Some("Return to C minor")),
                ],
            ),
        ],
        brick_summary: strings(vec!["Sad Launcher x2", "Launcher x1"]),
        joins_used: strings(vec!["Sidewinder (C -> Db)", "Sidewinder (Db -> C)"]),
    };
    proof {
        assert(section_brick_names(s.sections@[0]) =~= seq!["Sad Launcher"@]);
        assert(section_brick_names(s.sections@[1]) =~= seq!["Launcher"@, "Sad Launcher"@]);
        lemma_section_names_2(
            s,
            seq!["Sad Launcher"@],
            seq!["Launcher"@, "Sad Launcher"@],
        );
        assert(standard_brick_names(s) =~= seq![
            "Sad Launcher"@,
            "Launcher"@,
            "Sad Launcher"@,
        ]);
    }
    s
}

/// The essential up-tempo form.
fn rhythm_changes() -> (r: Standard)
    ensures
        r.name@ == "Rhythm Changes (I Got Rhythm)"@,
        r.total_bars == 32,
        standard_brick_names(r) == seq!["Rhythm"@, "Rhythm"@, "Long Approach"@, "Rhythm"@],
{
    let s = Standard {
        name: String::from_str("Rhythm Changes (I Got Rhythm)"),
        composer: String::from_str("George Gershwin"),
        year: Some(1930),
        total_bars: 32,
        form: String::from_str("AABA"),
        key: Note::Bb,
        tempo_range: (160, 320),
        style: String::from_str("Up-tempo swing"),
        sections: vec![
            section(
                "A1",
                8,
                Note::Bb,
                vec![brick_ref("Rhythm", 1, 8, Note::Bb, Some("I-vi-ii-V turnaround pattern"))],
            ),
            section(
                "A2",
                8,
                Note::Bb,
                vec![brick_ref("Rhythm", 9, 8, Note::Bb, None)],
            ),
            section(
                "B",
                8,
                Note::Bb,
                vec![brick_ref("Long Approach", 17, 8, Note::Bb, Some("III7-VI7-II7-V7 sequence"))],
            ),
            section(
                "A3",
                8,
                Note::Bb,
                vec![brick_ref("Rhythm", 25, 8, Note::Bb, Some("Final A section"))],
            ),
        ],
        brick_summary: strings(vec!["Rhythm x3", "Long Approach x1"]),
        joins_used: Vec::new(),
    };
    proof {
        assert(section_brick_names(s.sections@[0]) =~= seq!["Rhythm"@]);
        assert(section_brick_names(s.sections@[1]) =~= seq!["Rhythm"@]);
        assert(section_brick_names(s.sections@[2]) =~= seq!["Long Approach"@]);
        assert(section_brick_names(s.sections@[3]) =~= seq!["Rhythm"@]);
        lemma_section_names_4(
            s,
            seq!["Rhythm"@],
            seq!["Rhythm"@],
            seq!["Long Approach"@],
            seq!["Rhythm"@],
        );
        assert(standard_brick_names(s) =~= seq![
            "Rhythm"@,
            "Rhythm"@,
            "Long Approach"@,
            "Rhythm"@,
        ]);
    }
    s
}

} // verus!

//! The classifier: which category a file belongs to.

use vstd::prelude::*;
use vstd::string::*;
use crate::config::Config;
use crate::scan::actor::{Category, CategoryId, File};
use crate::scan::error::ScannerError;
use crate::text::{components, path_components, strip_root, texts, without_root};

verus! {

/// What `strsim::damerau_levenshtein` returns for two texts: their
/// Damerau-Levenshtein distance, the least number of insertions, deletions,
/// substitutions and transpositions of neighbouring characters that turns
/// one into the other. It depends on the two texts alone.
pub uninterp spec fn damerau_levenshtein_distance(a: Seq<char>, b: Seq<char>) -> nat;

/// The longer of two lengths.
pub open spec fn longer_of(a: nat, b: nat) -> nat {
    if a >= b {
        a
    } else {
        b
    }
}

/// Calls `strsim::damerau_levenshtein`, which reads both texts character by
/// character. The contract gives the result its name and claims two things
/// of it, which the crate documents of the similarity it derives from this
/// distance (a score between 0 and 1, and 1 for the same text): a text is at
/// distance 0 from itself, and no distance is greater than the length of the
/// longer text.
#[verifier::external_body]
fn edit_distance(a: &str, b: &str) -> (d: usize)
    ensures
        d == damerau_levenshtein_distance(a@, b@),
        a@ == b@ ==> d == 0,
        d <= longer_of(a@.len(), b@.len()),
{
    strsim::damerau_levenshtein(a, b)
}

/// A similarity between 0 and 1, held exactly as the fraction `num / den`.
#[derive(Debug, Clone, Copy, PartialEq, Eq, Structural)]
pub struct Score {
    pub num: usize,
    pub den: usize,
}

impl Score {
    /// The fraction is defined and lies between 0 and 1.
    pub open spec fn wf(&self) -> bool {
        0 < self.den && self.num <= self.den
    }

    /// `self` is strictly less than `other`, as fractions.
    pub open spec fn lt(&self, other: &Score) -> bool {
        self.num * other.den < other.num * self.den
    }

    /// `self` is at most `other`, as fractions.
    pub open spec fn le(&self, other: &Score) -> bool {
        self.num * other.den <= other.num * self.den
    }

    /// The score of texts that share nothing.
    pub open spec fn zero() -> Score {
        Score { num: 0, den: 1 }
    }

    /// The score of texts that are the same: the fraction is 1.
    pub open spec fn full(&self) -> bool {
        self.num == self.den
    }

    /// Decides `lt`.
    pub fn less_than(&self, other: &Score) -> (less: bool)
        ensures
            less == self.lt(other),
    {
        let a: u128 = self.num as u128;
        let b: u128 = other.den as u128;
        let c: u128 = other.num as u128;
        let d: u128 = self.den as u128;
        assert(a * b <= 0xffff_ffff_ffff_ffff * 0xffff_ffff_ffff_ffff) by (nonlinear_arith)
            requires
                a <= 0xffff_ffff_ffff_ffff,
                b <= 0xffff_ffff_ffff_ffff,
        ;
        assert(c * d <= 0xffff_ffff_ffff_ffff * 0xffff_ffff_ffff_ffff) by (nonlinear_arith)
            requires
                c <= 0xffff_ffff_ffff_ffff,
                d <= 0xffff_ffff_ffff_ffff,
        ;
        a * b < c * d
    }
}

/// Fractions compare as numbers do: the order is total and transitive.
pub proof fn lemma_score_order(a: Score, b: Score, c: Score)
    requires
        a.wf(),
        b.wf(),
        c.wf(),
    ensures
        a.le(&a),
        a.lt(&b) ==> a.le(&b),
        a.lt(&b) || b.le(&a),
        !(a.lt(&b) && b.le(&a)),
        a.le(&b) && b.le(&c) ==> a.le(&c),
        a.le(&b) && b.lt(&c) ==> a.lt(&c),
        a.lt(&b) && b.le(&c) ==> a.lt(&c),
{
    let (an, ad) = (a.num as int, a.den as int);
    let (bn, bd) = (b.num as int, b.den as int);
    let (cn, cd) = (c.num as int, c.den as int);
    assert(an * bd <= bn * ad && bn * cd <= cn * bd ==> an * cd <= cn * ad) by (nonlinear_arith)
        requires
            0 < ad,
            0 < bd,
            0 < cd,
            0 <= an,
            0 <= bn,
            0 <= cn,
    {
        if an * bd <= bn * ad && bn * cd <= cn * bd {
            assert(an * bd * cd <= bn * ad * cd);
            assert(bn * cd * ad <= cn * bd * ad);
            assert(bn * ad * cd == bn * cd * ad);
            assert((an * cd) * bd <= (cn * ad) * bd);
        }
    }
    assert(an * bd <= bn * ad && bn * cd < cn * bd ==> an * cd < cn * ad) by (nonlinear_arith)
        requires
            0 < ad,
            0 < bd,
            0 < cd,
            0 <= an,
            0 <= bn,
            0 <= cn,
    {
        if an * bd <= bn * ad && bn * cd < cn * bd {
            assert(an * bd * cd <= bn * ad * cd);
            assert(bn * cd * ad < cn * bd * ad);
            assert(bn * ad * cd == bn * cd * ad);
            assert((an * cd) * bd < (cn * ad) * bd);
        }
    }
    assert(an * bd < bn * ad && bn * cd <= cn * bd ==> an * cd < cn * ad) by (nonlinear_arith)
        requires
            0 < ad,
            0 < bd,
            0 < cd,
            0 <= an,
            0 <= bn,
            0 <= cn,
    {
        if an * bd < bn * ad && bn * cd <= cn * bd {
            assert(an * bd * cd < bn * ad * cd);
            assert(bn * cd * ad <= cn * bd * ad);
            assert(bn * ad * cd == bn * cd * ad);
            assert((an * cd) * bd < (cn * ad) * bd);
        }
    }
}

/// The similarity of two texts of lengths `name_len` and `component_len`
/// that lie `distance` apart: 1 less the distance over the greater length,
/// and never below 0. Two empty texts are alike in full.
pub open spec fn similarity_from(name_len: nat, component_len: nat, distance: nat) -> Score {
    if name_len == 0 && component_len == 0 {
        Score { num: 1, den: 1 }
    } else {
        let longer = longer_of(name_len, component_len);
        Score {
            num: if distance <= longer {
                (longer - distance) as usize
            } else {
                0
            },
            den: longer as usize,
        }
    }
}

/// How alike a category name and one path component are.
pub open spec fn similarity(name: Seq<char>, component: Seq<char>) -> Score {
    similarity_from(name.len(), component.len(), damerau_levenshtein_distance(name, component))
}

/// The greatest of `scores`, and 0 where there is none. Among equal
/// fractions the first one met is kept.
pub open spec fn highest(scores: Seq<Score>) -> Score
    decreases scores.len(),
{
    if scores.len() == 0 {
        Score::zero()
    } else {
        let before = highest(scores.drop_last());
        if before.lt(&scores.last()) {
            scores.last()
        } else {
            before
        }
    }
}

/// The similarity of a category name to each of a file's path components.
pub open spec fn scores_of(name: Seq<char>, parts: Seq<Seq<char>>) -> Seq<Score> {
    parts.map_values(|part: Seq<char>| similarity(name, part))
}

/// The score of a category against a file: the best similarity between the
/// category's name and any one of the file's path components.
pub open spec fn rank(name: Seq<char>, parts: Seq<Seq<char>>) -> Score {
    highest(scores_of(name, parts))
}

/// The path components that count for classification: those of the file's
/// path once the scan root has been taken off its front.
pub open spec fn classified_parts(publication_path: Seq<char>, path: Seq<char>) -> Seq<Seq<char>> {
    components(without_root(path, publication_path))
}

/// Place `i` holds the first of the greatest scores: none is greater, and
/// every earlier one is strictly less.
pub open spec fn is_first_highest(scores: Seq<Score>, i: int) -> bool {
    &&& 0 <= i < scores.len()
    &&& forall|j: int| 0 <= j < scores.len() ==> (#[trigger] scores[j]).le(&scores[i])
    &&& forall|j: int| 0 <= j < i ==> (#[trigger] scores[j]).lt(&scores[i])
}

/// The score of each category against a file.
pub open spec fn ranks(names: Seq<Seq<char>>, parts: Seq<Seq<char>>) -> Seq<Score> {
    names.map_values(|name: Seq<char>| rank(name, parts))
}

/// Category `i` wins: no category ranks higher, and every earlier one ranks
/// strictly lower.
pub open spec fn is_winner(names: Seq<Seq<char>>, parts: Seq<Seq<char>>, i: int) -> bool {
    is_first_highest(ranks(names, parts), i)
}

/// The names of a list of categories.
pub open spec fn names_of(categories: Seq<Category>) -> Seq<Seq<char>> {
    categories.map_values(|c: Category| c.name@)
}

/// All of `scores` are well-formed fractions.
pub open spec fn all_wf(scores: Seq<Score>) -> bool {
    forall|k: int| 0 <= k < scores.len() ==> (#[trigger] scores[k]).wf()
}

/// Turns a distance into a similarity.
pub fn score_from_distance(name_len: usize, component_len: usize, distance: usize) -> (score: Score)
    ensures
        score == similarity_from(name_len as nat, component_len as nat, distance as nat),
        score.wf(),
{
    if name_len == 0 && component_len == 0 {
        Score { num: 1, den: 1 }
    } else {
        let longer = if name_len >= component_len {
            name_len
        } else {
            component_len
        };
        Score {
            num: if distance <= longer {
                longer - distance
            } else {
                0
            },
            den: longer,
        }
    }
}

/// The similarity between a category name and one path component.
pub fn score_component(name: &str, component: &str) -> (score: Score)
    ensures
        score == similarity(name@, component@),
        score.wf(),
        name@ == component@ ==> score.full(),
        name@.len() > 0 || component@.len() > 0 ==> score.num + damerau_levenshtein_distance(
            name@,
            component@,
        ) == score.den,
{
    let name_len = name.unicode_len();
    let component_len = component.unicode_len();
    let distance = edit_distance(name, component);
    score_from_distance(name_len, component_len, distance)
}

/// The similarity of two texts whose lengths fit in a machine word is a
/// well-formed fraction.
pub proof fn lemma_similarity_wf(name: Seq<char>, component: Seq<char>)
    requires
        name.len() <= usize::MAX,
        component.len() <= usize::MAX,
    ensures
        similarity(name, component).wf(),
{
}

/// The rank of a category is the greatest similarity between its name and a
/// component: it is a well-formed fraction, it is at least the similarity to
/// every component, and it is the similarity to one of them unless it is 0.
pub proof fn lemma_rank_is_maximum(name: Seq<char>, parts: Seq<Seq<char>>)
    requires
        name.len() <= usize::MAX,
        forall|k: int| 0 <= k < parts.len() ==> (#[trigger] parts[k]).len() <= usize::MAX,
    ensures
        rank(name, parts).wf(),
        forall|k: int|
            0 <= k < parts.len() ==> (#[trigger] similarity(name, parts[k])).le(&rank(name, parts)),
        rank(name, parts) == Score::zero() || exists|k: int|
            0 <= k < parts.len() && rank(name, parts) == #[trigger] similarity(name, parts[k]),
{
    let scores = scores_of(name, parts);
    assert(all_wf(scores)) by {
        assert forall|k: int| 0 <= k < scores.len() implies (#[trigger] scores[k]).wf() by {
            lemma_similarity_wf(name, parts[k]);
        }
    }
    lemma_highest_wf(scores);
    lemma_highest_is_maximum(scores);
    assert forall|k: int| 0 <= k < parts.len() implies (#[trigger] similarity(name, parts[k])).le(
        &rank(name, parts),
    ) by {
        assert(scores[k] == similarity(name, parts[k]));
    }
    if rank(name, parts) != Score::zero() {
        let k = choose|k: int| 0 <= k < scores.len() && highest(scores) == #[trigger] scores[k];
        assert(scores[k] == similarity(name, parts[k]));
    }
}

/// A full score is the greatest there is: no well-formed score is above it,
/// and one that reaches it is full too.
pub proof fn lemma_full_is_greatest(top: Score, other: Score)
    requires
        top.wf(),
        other.wf(),
        top.full(),
    ensures
        other.le(&top),
        !top.lt(&other),
        top.le(&other) ==> other.full(),
{
    let (tn, td) = (top.num as int, top.den as int);
    let (on, od) = (other.num as int, other.den as int);
    assert(on * td <= tn * od && !(tn * od < on * td) && (tn * od <= on * td ==> on == od))
        by (nonlinear_arith)
        requires
            tn == td,
            0 < td,
            0 < od,
            0 <= on <= od,
    {
        assert(on * td <= od * td);
        if tn * od <= on * td {
            assert(od * td <= on * td);
        }
    }
}

/// `highest` gives a well-formed fraction where it is given such.
pub proof fn lemma_highest_wf(scores: Seq<Score>)
    requires
        all_wf(scores),
    ensures
        highest(scores).wf(),
    decreases scores.len(),
{
    if scores.len() > 0 {
        assert(scores.last().wf());
        assert(all_wf(scores.drop_last())) by {
            assert forall|k: int| 0 <= k < scores.drop_last().len() implies (
            #[trigger] scores.drop_last()[k]).wf() by {
                assert(scores[k].wf());
            }
        }
        lemma_highest_wf(scores.drop_last());
    }
}

/// `highest` is the maximum: it is at least every score given, and it is one
/// of them unless it is 0.
pub proof fn lemma_highest_is_maximum(scores: Seq<Score>)
    requires
        all_wf(scores),
    ensures
        forall|k: int| 0 <= k < scores.len() ==> (#[trigger] scores[k]).le(&highest(scores)),
        highest(scores) == Score::zero() || exists|k: int|
            0 <= k < scores.len() && highest(scores) == #[trigger] scores[k],
    decreases scores.len(),
{
    if scores.len() > 0 {
        let init = scores.drop_last();
        let before = highest(init);
        let here = scores.last();
        assert(all_wf(init)) by {
            assert forall|k: int| 0 <= k < init.len() implies (#[trigger] init[k]).wf() by {
                assert(scores[k].wf());
            }
        }
        lemma_highest_is_maximum(init);
        lemma_highest_wf(init);
        assert(here.wf());
        assert forall|k: int| 0 <= k < scores.len() implies (#[trigger] scores[k]).le(
            &highest(scores),
        ) by {
            assert(scores[k].wf());
            lemma_score_order(scores[k], before, here);
            lemma_score_order(before, here, here);
            if k < scores.len() - 1 {
                assert(scores[k] == init[k]);
            }
        }
        if highest(scores) != Score::zero() {
            if before.lt(&here) {
                assert(highest(scores) == scores[scores.len() - 1]);
            } else {
                let k = choose|k: int| 0 <= k < init.len() && before == #[trigger] init[k];
                assert(init[k] == scores[k]);
            }
        }
    }
}

/// The greatest of the scores given, and 0 where none is given.
pub fn highest_score(scores: &Vec<Score>) -> (best: Score)
    ensures
        best == highest(scores@),
{
    let mut best = Score { num: 0, den: 1 };
    let mut i: usize = 0;
    assert(scores@.take(0) == Seq::<Score>::empty());
    while i < scores.len()
        invariant
            i <= scores.len(),
            best == highest(scores@.take(i as int)),
        decreases scores.len() - i,
    {
        assert(scores@.take(i + 1).drop_last() == scores@.take(i as int));
        assert(scores@.take(i + 1).last() == scores@[i as int]);
        if best.less_than(&scores[i]) {
            best = scores[i];
        }
        i += 1;
    }
    assert(scores@.take(scores.len() as int) == scores@);
    best
}

/// The place of the first of the greatest scores; none where no score is
/// given.
pub fn first_highest(scores: &Vec<Score>) -> (place: Option<usize>)
    requires
        all_wf(scores@),
    ensures
        match place {
            Some(i) => is_first_highest(scores@, i as int),
            None => scores@.len() == 0,
        },
{
    if scores.len() == 0 {
        return None;
    }
    let mut winner: usize = 0;
    let mut i: usize = 1;
    proof {
        lemma_score_order(scores@[0], scores@[0], scores@[0]);
    }
    while i < scores.len()
        invariant
            1 <= i <= scores.len(),
            winner < i,
            all_wf(scores@),
            forall|j: int| 0 <= j < i ==> (#[trigger] scores@[j]).le(&scores@[winner as int]),
            forall|j: int| 0 <= j < winner ==> (#[trigger] scores@[j]).lt(&scores@[winner as int]),
        decreases scores.len() - i,
    {
        let ghost best = scores@[winner as int];
        let ghost here = scores@[i as int];
        proof {
            assert forall|j: int| 0 <= j < i && best.lt(&here) implies (#[trigger] scores@[j]).lt(
                &here,
            ) by {
                lemma_score_order(scores@[j], best, here);
            }
            lemma_score_order(best, here, here);
        }
        if scores[winner].less_than(&scores[i]) {
            winner = i;
        }
        i += 1;
    }
    Some(winner)
}

/// At most one place holds the first of the greatest scores.
pub proof fn lemma_first_highest_unique(scores: Seq<Score>, i: int, j: int)
    requires
        is_first_highest(scores, i),
        is_first_highest(scores, j),
    ensures
        i == j,
{
    if i < j {
        assert(scores[i].lt(&scores[j]));
        assert(scores[j].le(&scores[i]));
    } else if j < i {
        assert(scores[j].lt(&scores[i]));
        assert(scores[i].le(&scores[j]));
    }
}

/// Scores one category against one file: the best similarity between the
/// category's name and a component of the file's path below the scan root,
/// and 0 where the path has no component there. A category whose name is one
/// of the components scores in full.
pub fn rank_category(publication_path: &str, category: &Category, file: &File) -> (score: Score)
    ensures
        score == rank(category.name@, classified_parts(publication_path@, file.path@)),
        score.wf(),
        forall|k: int|
            0 <= k < classified_parts(publication_path@, file.path@).len() ==> (
            #[trigger] similarity(
                category.name@,
                classified_parts(publication_path@, file.path@)[k],
            )).le(&score),
        classified_parts(publication_path@, file.path@).contains(category.name@) ==> score.full(),
{
    let relative = strip_root(file.path.as_str(), publication_path);
    let parts = path_components(relative);
    let ghost named = texts(parts@);
    let ghost all = scores_of(category.name@, named);
    let mut scores: Vec<Score> = Vec::new();
    let mut i: usize = 0;
    while i < parts.len()
        invariant
            i <= parts.len(),
            named == texts(parts@),
            all == scores_of(category.name@, named),
            scores@ == all.take(i as int),
            all_wf(scores@),
            forall|k: int|
                0 <= k < i && named[k] == category.name@ ==> (#[trigger] scores@[k]).full(),
        decreases parts.len() - i,
    {
        let here = score_component(category.name.as_str(), parts[i].as_str());
        scores.push(here);
        assert(scores@ =~= all.take(i + 1));
        i += 1;
    }
    assert(scores@ =~= all);
    let best = highest_score(&scores);
    proof {
        lemma_highest_wf(scores@);
        lemma_highest_is_maximum(scores@);
        assert forall|k: int| 0 <= k < named.len() implies (#[trigger] similarity(
            category.name@,
            named[k],
        )).le(&best) by {
            assert(scores@[k] == similarity(category.name@, named[k]));
        }
        if named.contains(category.name@) {
            let k = choose|k: int| 0 <= k < named.len() && named[k] == category.name@;
            assert(scores@[k].full());
            lemma_full_is_greatest(scores@[k], best);
        }
    }
    best
}

/// What classification owes for a list of categories and a file: the winner
/// where there is a category at all, else the error that says there is none.
pub open spec fn classifies(
    publication_path: Seq<char>,
    path: Seq<char>,
    categories: Seq<Category>,
    outcome: Result<Category, ScannerError>,
) -> bool {
    match outcome {
        Ok(category) => exists|i: int|
            #![trigger categories[i]]
            is_winner(names_of(categories), classified_parts(publication_path, path), i)
                && category == categories[i],
        Err(e) => categories.len() == 0 && e == ScannerError::EmptyCategoryError,
    }
}

/// Category `k` is named in the path before any other scores in full: its
/// name is one of the components, and no earlier category ranks in full.
pub open spec fn is_first_named(names: Seq<Seq<char>>, parts: Seq<Seq<char>>, k: int) -> bool {
    &&& 0 <= k < names.len()
    &&& parts.contains(names[k])
    &&& forall|j: int| 0 <= j < k ==> !(#[trigger] rank(names[j], parts)).full()
}

/// Picks the category that a file belongs to: the one that ranks highest
/// against the file's path, the first of them where several rank alike. With
/// no category to choose from the answer is `EmptyCategoryError`.
///
/// A category whose name is a component of the path ranks in full, so it is
/// chosen unless an earlier category ranks in full too. The first category
/// of the list, when the path names it, is chosen always.
pub fn process_category<'a>(
    publication_path: &str,
    file: &File,
    categories: &'a [Category],
) -> (outcome: Result<&'a Category, ScannerError>)
    ensures
        categories@.len() > 0 ==> outcome is Ok,
        match outcome {
            Ok(category) => classifies(publication_path@, file.path@, categories@, Ok(*category)),
            Err(e) => classifies(publication_path@, file.path@, categories@, Err(e)),
        },
        forall|k: int|
            #![trigger categories@[k]]
            is_first_named(
                names_of(categories@),
                classified_parts(publication_path@, file.path@),
                k,
            ) ==> outcome is Ok && *outcome->Ok_0 == categories@[k],
{
    let ghost names = names_of(categories@);
    let ghost parts = classified_parts(publication_path@, file.path@);
    let ghost all = ranks(names, parts);
    let mut scores: Vec<Score> = Vec::new();
    let mut i: usize = 0;
    while i < categories.len()
        invariant
            i <= categories.len(),
            names == names_of(categories@),
            parts == classified_parts(publication_path@, file.path@),
            all == ranks(names, parts),
            scores@ == all.take(i as int),
            all_wf(scores@),
            forall|j: int| 0 <= j < i && parts.contains(names[j]) ==> (#[trigger] scores@[j]).full(),
        decreases categories.len() - i,
    {
        let here = rank_category(publication_path, &categories[i], file);
        scores.push(here);
        assert(scores@ =~= all.take(i + 1));
        i += 1;
    }
    assert(scores@ =~= all);
    match first_highest(&scores) {
        Some(winner) => {
            proof {
                assert forall|k: int| #![trigger categories@[k]] is_first_named(names, parts, k) implies k
                    == winner by {
                    assert(scores@[k].full());
                    assert(scores@[k].le(&scores@[winner as int]));
                    lemma_full_is_greatest(scores@[k], scores@[winner as int]);
                    if winner < k {
                        assert(rank(names[winner as int], parts) == scores@[winner as int]);
                    } else if k < winner {
                        assert(scores@[k].lt(&scores@[winner as int]));
                    }
                }
            }
            Ok(&categories[winner])
        },
        None => Err(ScannerError::EmptyCategoryError),
    }
}

/// What classifying `file` owes: the file itself with the identifier of the
/// winning category, or `EmptyCategoryError` where there is no category.
pub open spec fn classified(
    publication_path: Seq<char>,
    categories: Seq<Category>,
    file: File,
    outcome: Result<(File, CategoryId), ScannerError>,
) -> bool {
    match outcome {
        Ok((f, id)) => f == file && exists|i: int|
            #![trigger categories[i]]
            is_winner(names_of(categories), classified_parts(publication_path, file.path@), i)
                && id == categories[i].id,
        Err(e) => categories.len() == 0 && e == ScannerError::EmptyCategoryError,
    }
}

/// One file to classify, with the categories to choose from.
#[derive(Debug, Clone, PartialEq, Eq)]
pub struct ProcessFile {
    pub config: Config,
    /// The root of the scan, which is left out of the comparison.
    pub publication_path: String,
    pub categories: Vec<Category>,
    pub file: File,
}

impl ProcessFile {
    /// Classifies the file and hands it back with the identifier of its
    /// category.
    pub fn handle(self) -> (outcome: Result<(File, CategoryId), ScannerError>)
        ensures
            self.categories@.len() > 0 ==> outcome is Ok,
            classified(self.publication_path@, self.categories@, self.file, outcome),
    {
        let id = match process_category(
            self.publication_path.as_str(),
            &self.file,
            self.categories.as_slice(),
        ) {
            Ok(category) => category.id,
            Err(e) => {
                return Err(e);
            },
        };
        Ok((self.file, id))
    }
}

/// Classification is a function of its inputs: two outcomes that both meet
/// what classification owes for the same categories and the same file are the
/// same outcome.
pub proof fn lemma_classification_deterministic(
    publication_path: Seq<char>,
    path: Seq<char>,
    categories: Seq<Category>,
    first: Result<Category, ScannerError>,
    second: Result<Category, ScannerError>,
)
    requires
        classifies(publication_path, path, categories, first),
        classifies(publication_path, path, categories, second),
    ensures
        first == second,
{
    let names = names_of(categories);
    let parts = classified_parts(publication_path, path);
    match (first, second) {
        (Ok(a), Ok(b)) => {
            let i = choose|i: int|
                #![trigger categories[i]]
                is_winner(names, parts, i) && a == categories[i];
            let j = choose|j: int|
                #![trigger categories[j]]
                is_winner(names, parts, j) && b == categories[j];
            lemma_first_highest_unique(ranks(names, parts), i, j);
        },
        (Ok(a), Err(_)) => {
            let i = choose|i: int|
                #![trigger categories[i]]
                is_winner(names, parts, i) && a == categories[i];
            assert(names.len() == categories.len());
        },
        (Err(_), Ok(b)) => {
            let j = choose|j: int|
                #![trigger categories[j]]
                is_winner(names, parts, j) && b == categories[j];
            assert(names.len() == categories.len());
        },
        (Err(_), Err(_)) => {},
    }
}

} // verus!

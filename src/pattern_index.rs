use vstd::prelude::*;

use crate::models::Acronym;

verus! {

#[verifier::external_type_specification]
#[verifier::external_body]
pub struct ExRegex(regex::Regex);

#[verifier::external_type_specification]
#[verifier::external_body]
pub struct ExRegexSet(regex::RegexSet);

#[verifier::external_type_specification]
#[verifier::external_body]
pub struct ExRegexError(regex::Error);

/// Whether `pattern` compiles as a regular expression on its own.
pub uninterp spec fn pattern_compiles(pattern: Seq<char>) -> bool;

/// Whether the patterns, in this order, compile together into one set.
pub uninterp spec fn set_compiles(patterns: Seq<Seq<char>>) -> bool;

/// Whether the regular expression `pattern` occurs somewhere in `text`.
pub uninterp spec fn pattern_matches(pattern: Seq<char>, text: Seq<char>) -> bool;

/// Relies on `regex::Regex::new`: it succeeds exactly when the pattern
/// compiles, which depends on the pattern alone.
#[verifier::external_body]
pub(crate) fn compile_pattern(pattern: &str) -> (r: Result<regex::Regex, regex::Error>)
    ensures
        r is Ok <==> pattern_compiles(pattern@),
{
    regex::Regex::new(pattern)
}

/// Relies on `regex::RegexSetBuilder::build`: it succeeds exactly when the
/// patterns compile together, which depends on the patterns alone.
#[verifier::external_body]
fn compile_set(patterns: &Vec<String>) -> (r: Result<regex::RegexSet, regex::Error>)
    ensures
        r is Ok <==> set_compiles(views_of(patterns@)),
{
    regex::RegexSetBuilder::new(patterns.iter()).build()
}

/// The character sequences held by a sequence of strings.
pub open spec fn views_of(s: Seq<String>) -> Seq<Seq<char>> {
    s.map_values(|p: String| p@)
}

/// The patterns of a vocabulary, in its order.
pub open spec fn patterns_of(vocab: Seq<Acronym>) -> Seq<Seq<char>> {
    vocab.map_values(|a: Acronym| a.regex@)
}

/// The identifiers of a vocabulary, in its order.
pub open spec fn ids_of(vocab: Seq<Acronym>) -> Seq<i32> {
    vocab.map_values(|a: Acronym| a.id)
}

/// Every pattern of the vocabulary compiles on its own.
pub open spec fn each_compiles(vocab: Seq<Acronym>) -> bool {
    forall|j: int| 0 <= j < vocab.len() ==> pattern_compiles(#[trigger] vocab[j].regex@)
}

/// The positions of the patterns that occur in `text`, ascending.
pub open spec fn matching_slots(patterns: Seq<Seq<char>>, text: Seq<char>) -> Seq<int> {
    Seq::new(patterns.len(), |i: int| i).filter(|i: int| pattern_matches(patterns[i], text))
}

proof fn slot_filter_prefix(patterns: Seq<Seq<char>>, text: Seq<char>, k: int, n: int)
    requires
        0 <= k < patterns.len(),
        0 <= n <= patterns.len(),
        pattern_matches(patterns[k], text),
        forall|j: int|
            0 <= j < patterns.len() && j != k ==> !pattern_matches(#[trigger] patterns[j], text),
    ensures
        Seq::new(n as nat, |i: int| i).filter(|i: int| pattern_matches(patterns[i], text)) == (if n
            <= k {
            Seq::<int>::empty()
        } else {
            seq![k]
        }),
    decreases n,
{
    reveal(Seq::filter);
    let s = Seq::new(n as nat, |i: int| i);
    if n > 0 {
        slot_filter_prefix(patterns, text, k, n - 1);
        assert(s.drop_last() =~= Seq::new((n - 1) as nat, |i: int| i));
    }
    assert(s.filter(|i: int| pattern_matches(patterns[i], text)) =~= (if n <= k {
        Seq::<int>::empty()
    } else {
        seq![k]
    }));
}

/// When the pattern at position `k` occurs in `text` and no other pattern
/// does, the matching positions are `k` alone.
pub proof fn lemma_single_match(patterns: Seq<Seq<char>>, text: Seq<char>, k: int)
    requires
        0 <= k < patterns.len(),
        pattern_matches(patterns[k], text),
        forall|j: int|
            0 <= j < patterns.len() && j != k ==> !pattern_matches(#[trigger] patterns[j], text),
    ensures
        matching_slots(patterns, text) == seq![k],
{
    slot_filter_prefix(patterns, text, k, patterns.len() as int);
}

/// Why a vocabulary could not be turned into a [`PatternIndex`].
pub enum BuildError {
    /// The vocabulary holds no acronym.
    EmptyVocabulary,
    /// The pattern at `slot`, that of acronym `acronym_id`, is the first that
    /// does not compile.
    InvalidPattern { slot: usize, acronym_id: i32 },
    /// Each pattern compiles alone, but together they exceed the size limit.
    TooLarge,
}

/// All the patterns of a vocabulary compiled into one matcher, with the
/// identifier of the acronym behind each pattern position.
pub struct PatternIndex {
    set: regex::RegexSet,
    patterns: Vec<String>,
    ids: Vec<i32>,
}

impl PatternIndex {
    /// The pattern at each position.
    pub closed spec fn slot_patterns(&self) -> Seq<Seq<char>> {
        views_of(self.patterns@)
    }

    /// The acronym identifier at each position.
    pub closed spec fn slot_ids(&self) -> Seq<i32> {
        self.ids@
    }

    /// Positions and identifiers are in lockstep, there is at least one and
    /// the patterns compile together.
    pub open spec fn wf(&self) -> bool {
        &&& self.slot_patterns().len() == self.slot_ids().len()
        &&& self.slot_patterns().len() > 0
        &&& set_compiles(self.slot_patterns())
    }

    /// Relies on `regex::RegexSet::matches`: the positions of the patterns
    /// that occur in `text`, in ascending order.
    #[verifier::external_body]
    fn set_matches(&self, text: &str) -> (r: Vec<usize>)
        ensures
            r@.map_values(|i: usize| i as int) == matching_slots(self.slot_patterns(), text@),
            forall|i: int|
                0 <= i < r@.len() ==> pattern_matches(
                    #[trigger] self.slot_patterns()[r@[i] as int],
                    text@,
                ),
    {
        self.set.matches(text).iter().collect()
    }

    /// Compiles the patterns of `vocab`, position `i` standing for `vocab[i]`.
    /// Fails on an empty vocabulary, names the first pattern that does not
    /// compile on its own, and only then compiles the patterns together.
    pub fn build(vocab: &Vec<Acronym>) -> (r: Result<PatternIndex, BuildError>)
        ensures
            (r is Err && r->Err_0 is EmptyVocabulary) <==> vocab@.len() == 0,
            r is Ok <==> (vocab@.len() > 0 && each_compiles(vocab@) && set_compiles(
                patterns_of(vocab@),
            )),
            (exists|j: int| 0 <= j < vocab@.len() && !pattern_compiles(#[trigger] vocab@[j].regex@))
                ==> r is Err,
            r matches Ok(idx) ==> {
                &&& idx.wf()
                &&& idx.slot_patterns() == patterns_of(vocab@)
                &&& idx.slot_ids() == ids_of(vocab@)
            },
            r matches Err(BuildError::InvalidPattern { slot, acronym_id }) ==> {
                &&& slot < vocab@.len()
                &&& acronym_id == vocab@[slot as int].id
                &&& !pattern_compiles(vocab@[slot as int].regex@)
                &&& forall|j: int| 0 <= j < slot ==> pattern_compiles(#[trigger] vocab@[j].regex@)
            },
            r matches Err(BuildError::TooLarge) ==> {
                &&& vocab@.len() > 0
                &&& each_compiles(vocab@)
                &&& !set_compiles(patterns_of(vocab@))
            },
    {
        if vocab.len() == 0 {
            return Err(BuildError::EmptyVocabulary);
        }
        let mut k: usize = 0;
        while k < vocab.len()
            invariant
                k <= vocab@.len(),
                forall|j: int| 0 <= j < k ==> pattern_compiles(#[trigger] vocab@[j].regex@),
            decreases vocab@.len() - k,
        {
            if compile_pattern(vocab[k].regex.as_str()).is_err() {
                return Err(BuildError::InvalidPattern { slot: k, acronym_id: vocab[k].id });
            }
            k = k + 1;
        }
        let mut patterns: Vec<String> = Vec::new();
        let mut ids: Vec<i32> = Vec::new();
        let mut i: usize = 0;
        while i < vocab.len()
            invariant
                i <= vocab@.len(),
                patterns@.len() == i,
                ids@.len() == i,
                views_of(patterns@) == patterns_of(vocab@.take(i as int)),
                ids@ == ids_of(vocab@.take(i as int)),
            decreases vocab@.len() - i,
        {
            let ghost before = patterns@;
            patterns.push(vocab[i].regex.clone());
            ids.push(vocab[i].id);
            assert(vocab@.take(i + 1) == vocab@.take(i as int).push(vocab@[i as int]));
            assert forall|j: int| 0 <= j < i implies #[trigger] patterns@[j]@ == vocab@[j].regex@ by {
                assert(patterns@[j] == before[j]);
                assert(views_of(before)[j] == patterns_of(vocab@.take(i as int))[j]);
            }
            assert(views_of(patterns@) =~= patterns_of(vocab@.take(i + 1)));
            assert(ids@ =~= ids_of(vocab@.take(i + 1)));
            i = i + 1;
        }
        assert(vocab@.take(i as int) =~= vocab@);
        match compile_set(&patterns) {
            Ok(set) => Ok(PatternIndex { set, patterns, ids }),
            Err(_) => Err(BuildError::TooLarge),
        }
    }

    /// The positions of the patterns that occur at least once in `text`, in
    /// ascending order, each once.
    pub fn match_all(&self, text: &str) -> (r: Vec<usize>)
        requires
            self.wf(),
        ensures
            r@.map_values(|i: usize| i as int) == matching_slots(self.slot_patterns(), text@),
    {
        self.set_matches(text)
    }

    /// The acronym identifier at position `slot`.
    pub fn id_at(&self, slot: usize) -> (r: i32)
        requires
            self.wf(),
            slot < self.slot_ids().len(),
        ensures
            r == self.slot_ids()[slot as int],
    {
        self.ids[slot]
    }

    /// The number of positions.
    pub fn len(&self) -> (r: usize)
        requires
            self.wf(),
        ensures
            r == self.slot_ids().len(),
    {
        self.ids.len()
    }
}

} // verus!

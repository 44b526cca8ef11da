use vstd::prelude::*;

use crate::models::{Acronym, Message, MessageView, Occurance};
use crate::pattern_index::{
    compile_pattern, each_compiles, ids_of, matching_slots, pattern_compiles, pattern_matches, patterns_of,
    set_compiles, views_of, BuildError, PatternIndex,
};

verus! {

/// The shape of an acronym candidate: a run of three to six capital letters
/// between word boundaries.
pub const CANDIDATE_SHAPE: &'static str = "\\b[A-Z]{3,6}\\b";

/// The texts of the successive leftmost, non-overlapping matches of
/// [`CANDIDATE_SHAPE`] in `text`.
pub uninterp spec fn shape_tokens(text: Seq<char>) -> Seq<Seq<char>>;

/// The candidate shape, compiled.
struct ShapeMatcher {
    re: regex::Regex,
}

impl ShapeMatcher {
    fn new() -> (r: Option<ShapeMatcher>)
        ensures
            r is Some <==> pattern_compiles(CANDIDATE_SHAPE@),
    {
        match compile_pattern(CANDIDATE_SHAPE) {
            Ok(re) => Some(ShapeMatcher { re }),
            Err(_) => None,
        }
    }

    /// Relies on `regex::Regex::find_iter` on the candidate shape: the text of
    /// each match in order, each being three to six letters from `A` to `Z`.
    #[verifier::external_body]
    fn tokens(&self, text: &str) -> (r: Vec<String>)
        ensures
            views_of(r@) == shape_tokens(text@),
            forall|i: int|
                0 <= i < r@.len() ==> 3 <= (#[trigger] r@[i])@.len() <= 6 && forall|c: int|
                    0 <= c < r@[i]@.len() ==> 'A' <= #[trigger] r@[i]@[c] <= 'Z',
    {
        self.re.find_iter(text).map(|m| m.as_str().to_string()).collect()
    }
}

/// A token of candidate shape, with the thread and message it was found in.
pub struct Candidate {
    pub token: String,
    pub thread_id: String,
    pub comment_id: String,
}

impl View for Candidate {
    type V = (Seq<char>, Seq<char>, Seq<char>);

    open spec fn view(&self) -> (Seq<char>, Seq<char>, Seq<char>) {
        (self.token@, self.thread_id@, self.comment_id@)
    }
}

/// Why a candidate scan could not run.
pub enum CandidateError {
    /// The candidate shape did not compile.
    ShapeRejected,
}

/// The candidates of one message, in the order of the text.
pub open spec fn message_candidates(m: MessageView) -> Seq<(Seq<char>, Seq<char>, Seq<char>)> {
    shape_tokens(m.body).map_values(|t: Seq<char>| (t, m.thread_id, m.id))
}

/// The candidates of a batch: message by message, in arrival order.
pub open spec fn batch_candidates(ms: Seq<MessageView>) -> Seq<(Seq<char>, Seq<char>, Seq<char>)>
    decreases ms.len(),
{
    if ms.len() == 0 {
        Seq::empty()
    } else {
        batch_candidates(ms.drop_last()) + message_candidates(ms.last())
    }
}

/// The views of a sequence of messages.
pub open spec fn message_views(ms: Seq<Message>) -> Seq<MessageView> {
    ms.map_values(|m: Message| m@)
}

/// Lists every token of candidate shape in the batch, whether or not the
/// vocabulary knows it.
pub fn scan_candidates(messages: &Vec<Message>) -> (r: Result<Vec<Candidate>, CandidateError>)
    ensures
        r is Err <==> !pattern_compiles(CANDIDATE_SHAPE@),
        r matches Ok(v) ==> v@.map_values(|c: Candidate| c@) == batch_candidates(
            message_views(messages@),
        ),
        r matches Ok(v) ==> forall|i: int|
            0 <= i < v@.len() ==> 3 <= (#[trigger] v@[i]).token@.len() <= 6,
        r matches Ok(v) ==> forall|i: int, c: int|
            0 <= i < v@.len() && 0 <= c < v@[i].token@.len() ==> 'A' <= #[trigger] v@[i].token@[c]
                <= 'Z',
{
    let matcher = match ShapeMatcher::new() {
        Some(m) => m,
        None => return Err(CandidateError::ShapeRejected),
    };
    let ghost ms = message_views(messages@);
    let mut out: Vec<Candidate> = Vec::new();
    let mut i: usize = 0;
    while i < messages.len()
        invariant
            i <= messages@.len(),
            ms == message_views(messages@),
            out@.map_values(|c: Candidate| c@) == batch_candidates(ms.take(i as int)),
            forall|k: int| 0 <= k < out@.len() ==> 3 <= (#[trigger] out@[k]).token@.len() <= 6,
            forall|k: int, c: int|
                0 <= k < out@.len() && 0 <= c < out@[k].token@.len() ==> 'A'
                    <= #[trigger] out@[k].token@[c] <= 'Z',
        decreases messages@.len() - i,
    {
        let m = &messages[i];
        let tokens = matcher.tokens(m.body.as_str());
        let ghost start = out@.map_values(|c: Candidate| c@);
        let ghost here = message_candidates(m@);
        let mut j: usize = 0;
        while j < tokens.len()
            invariant
                i < messages@.len(),
                m@ == ms[i as int],
                ms == message_views(messages@),
                j <= tokens@.len(),
                views_of(tokens@) == shape_tokens(m.body@),
                forall|t: int| 0 <= t < tokens@.len() ==> 3 <= (#[trigger] tokens@[t])@.len() <= 6,
                forall|t: int, c: int|
                    0 <= t < tokens@.len() && 0 <= c < tokens@[t]@.len() ==> 'A'
                        <= #[trigger] tokens@[t]@[c] <= 'Z',
                here == message_candidates(m@),
                out@.map_values(|c: Candidate| c@) == start + here.take(j as int),
                forall|k: int| 0 <= k < out@.len() ==> 3 <= (#[trigger] out@[k]).token@.len() <= 6,
                forall|k: int, c: int|
                    0 <= k < out@.len() && 0 <= c < out@[k].token@.len() ==> 'A'
                        <= #[trigger] out@[k].token@[c] <= 'Z',
            decreases tokens@.len() - j,
        {
            let c = Candidate {
                token: tokens[j].clone(),
                thread_id: m.thread_id.clone(),
                comment_id: m.id.clone(),
            };
            let ghost prev = out@;
            out.push(c);
            assert(views_of(tokens@)[j as int] == tokens@[j as int]@);
            assert forall|k: int| 0 <= k < out@.len() implies 3 <= (#[trigger] out@[k]).token@.len()
                <= 6 by {
                if k < prev.len() {
                    assert(out@[k] == prev[k]);
                }
            }
            assert forall|k: int, c: int|
                0 <= k < out@.len() && 0 <= c < out@[k].token@.len() implies 'A'
                <= #[trigger] out@[k].token@[c] <= 'Z' by {
                if k < prev.len() {
                    assert(out@[k] == prev[k]);
                } else {
                    assert(out@[k].token@ == tokens@[j as int]@);
                }
            }
            assert(here[j as int] == (tokens@[j as int]@, m.thread_id@, m.id@));
            assert forall|k: int| 0 <= k < prev.len() implies #[trigger] out@[k]@ == (start
                + here.take(j as int))[k] by {
                assert(out@[k] == prev[k]);
                assert(prev.map_values(|c: Candidate| c@)[k] == prev[k]@);
            }
            assert(views_of(tokens@).len() == tokens@.len());
            assert(here.len() == tokens@.len());
            assert(prev.map_values(|c: Candidate| c@).len() == prev.len());
            assert(prev.len() == start.len() + j);
            assert(out@[prev.len() as int]@ == here[j as int]);
            assert(out@.map_values(|c: Candidate| c@) =~= start + here.take(j + 1));
            j = j + 1;
        }
        assert(here.take(j as int) =~= here);
        assert(ms.take(i + 1).drop_last() =~= ms.take(i as int));
        assert(ms.take(i + 1).last() == ms[i as int]);
        i = i + 1;
    }
    assert(ms.take(i as int) =~= ms);
    Ok(out)
}

/// The detections of one message: one for each matching pattern position,
/// in ascending position order.
pub open spec fn message_detections(patterns: Seq<Seq<char>>, ids: Seq<i32>, m: MessageView) -> Seq<
    (Seq<char>, Seq<char>, i32),
> {
    matching_slots(patterns, m.body).map_values(|s: int| (m.thread_id, m.id, ids[s]))
}

/// The detections of a batch: message by message, in arrival order.
pub open spec fn batch_detections(
    patterns: Seq<Seq<char>>,
    ids: Seq<i32>,
    ms: Seq<MessageView>,
) -> Seq<(Seq<char>, Seq<char>, i32)>
    decreases ms.len(),
{
    if ms.len() == 0 {
        Seq::empty()
    } else {
        batch_detections(patterns, ids, ms.drop_last()) + message_detections(
            patterns,
            ids,
            ms.last(),
        )
    }
}

/// Every position that matches lies within the pattern sequence.
proof fn lemma_slots_in_range(patterns: Seq<Seq<char>>, text: Seq<char>)
    ensures
        forall|k: int|
            0 <= k < matching_slots(patterns, text).len() ==> 0 <= #[trigger] matching_slots(
                patterns,
                text,
            )[k] < patterns.len(),
{
    let all = Seq::new(patterns.len(), |i: int| i);
    let pred = |i: int| pattern_matches(patterns[i], text);
    assert forall|k: int|
        0 <= k < matching_slots(patterns, text).len() implies 0 <= #[trigger] matching_slots(
        patterns,
        text,
    )[k] < patterns.len() by {
        let x = all.filter(pred)[k];
        assert(all.filter(pred).contains(x));
        all.lemma_filter_contains_rev(pred, x);
    }
}

/// What a known-vocabulary scan of a batch found.
pub struct KnownScan {
    /// One detection per message and matching pattern position.
    pub detections: Vec<Occurance>,
    /// For each message, how many pattern positions matched.
    pub counts: Vec<usize>,
}

/// Scans each message of the batch with the pattern index and turns each
/// matching position into a detection of the acronym behind it.
pub fn scan_known(index: &PatternIndex, messages: &Vec<Message>) -> (r: KnownScan)
    requires
        index.wf(),
    ensures
        r.detections@.map_values(|o: Occurance| o@) == batch_detections(
            index.slot_patterns(),
            index.slot_ids(),
            message_views(messages@),
        ),
        r.counts@.len() == messages@.len(),
        forall|i: int|
            0 <= i < messages@.len() ==> #[trigger] r.counts@[i] == matching_slots(
                index.slot_patterns(),
                messages@[i].body@,
            ).len(),
{
    let ghost ms = message_views(messages@);
    let ghost patterns = index.slot_patterns();
    let ghost ids = index.slot_ids();
    let mut out: Vec<Occurance> = Vec::new();
    let mut counts: Vec<usize> = Vec::new();
    let mut i: usize = 0;
    while i < messages.len()
        invariant
            index.wf(),
            patterns == index.slot_patterns(),
            ids == index.slot_ids(),
            i <= messages@.len(),
            ms == message_views(messages@),
            out@.map_values(|o: Occurance| o@) == batch_detections(patterns, ids, ms.take(i as int)),
            counts@.len() == i,
            forall|k: int|
                0 <= k < i ==> #[trigger] counts@[k] == matching_slots(
                    patterns,
                    messages@[k].body@,
                ).len(),
        decreases messages@.len() - i,
    {
        let m = &messages[i];
        let slots = index.match_all(m.body.as_str());
        proof {
            lemma_slots_in_range(patterns, m.body@);
        }
        let ghost start = out@.map_values(|o: Occurance| o@);
        let ghost here = message_detections(patterns, ids, m@);
        let ghost found = matching_slots(patterns, m.body@);
        assert(slots@.map_values(|s: usize| s as int).len() == slots@.len());
        let mut j: usize = 0;
        while j < slots.len()
            invariant
                index.wf(),
                patterns == index.slot_patterns(),
                ids == index.slot_ids(),
                i < messages@.len(),
                m@ == ms[i as int],
                ms == message_views(messages@),
                j <= slots@.len(),
                found == matching_slots(patterns, m.body@),
                slots@.map_values(|s: usize| s as int) == found,
                forall|k: int| 0 <= k < found.len() ==> 0 <= #[trigger] found[k] < patterns.len(),
                here == message_detections(patterns, ids, m@),
                out@.map_values(|o: Occurance| o@) == start + here.take(j as int),
                start.len() + j == out@.len(),
            decreases slots@.len() - j,
        {
            let slot = slots[j];
            assert(found[j as int] == slot as int);
            let o = Occurance {
                thread_id: m.thread_id.clone(),
                comment_id: m.id.clone(),
                acronym_id: index.id_at(slot),
            };
            let ghost prev = out@;
            out.push(o);
            assert(here.len() == found.len());
            assert(here[j as int] == o@);
            assert forall|k: int| 0 <= k < prev.len() implies #[trigger] out@[k]@ == (start
                + here.take(j as int))[k] by {
                assert(out@[k] == prev[k]);
                assert(prev.map_values(|o: Occurance| o@)[k] == prev[k]@);
            }
            assert(out@.map_values(|o: Occurance| o@) =~= start + here.take(j + 1));
            j = j + 1;
        }
        assert(here.take(j as int) =~= here);
        assert(ms.take(i + 1).drop_last() =~= ms.take(i as int));
        assert(ms.take(i + 1).last() == ms[i as int]);
        counts.push(slots.len());
        i = i + 1;
    }
    assert(ms.take(i as int) =~= ms);
    KnownScan { detections: out, counts }
}

/// Builds the pattern index of `vocab` and scans the batch with it. A
/// vocabulary that is empty or holds a pattern that does not compile stops
/// the run before any message is scanned.
pub fn detect(vocab: &Vec<Acronym>, messages: &Vec<Message>) -> (r: Result<KnownScan, BuildError>)
    ensures
        r is Ok <==> (vocab@.len() > 0 && each_compiles(vocab@) && set_compiles(
            patterns_of(vocab@),
        )),
        (exists|j: int| 0 <= j < vocab@.len() && !pattern_compiles(#[trigger] vocab@[j].regex@))
            ==> r is Err,
        r matches Ok(scan) ==> scan.detections@.map_values(|o: Occurance| o@) == batch_detections(
            patterns_of(vocab@),
            ids_of(vocab@),
            message_views(messages@),
        ),
        r matches Ok(scan) ==> scan.counts@.len() == messages@.len(),
        r matches Ok(scan) ==> forall|i: int|
            0 <= i < messages@.len() ==> #[trigger] scan.counts@[i] == matching_slots(
                patterns_of(vocab@),
                messages@[i].body@,
            ).len(),
{
    match PatternIndex::build(vocab) {
        Ok(index) => Ok(scan_known(&index, messages)),
        Err(e) => Err(e),
    }
}

} // verus!

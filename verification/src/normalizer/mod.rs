//! Normalizers rewrite a token sequence in place; a pipeline applies an
//! ordered list of them.

pub mod case;
pub mod punctuation;
pub mod replace;
pub mod stopwords;

use crate::normalizer::case::lowercase_all;
use crate::normalizer::punctuation::strip_punctuation_all;
use crate::normalizer::stopwords::without_stopwords;
use crate::text::{is_punctuation, lower_char, lowercase, strip_punctuation};
use crate::token::{texts, Token, Tokens};
use vstd::prelude::*;

pub use stopwords::Stopwords;

verus! {

/// What a normalizer is: a function from a token sequence to a token
/// sequence, applied in place.
pub trait TextNormalizer {
    /// The token sequence that this normalizer makes of `tokens`.
    spec fn normalized(&self, tokens: Seq<Seq<char>>) -> Seq<Seq<char>>;

    fn normalize(&self, tokens: &mut Tokens)
        ensures
            final(tokens)@ == self.normalized(old(tokens)@),
    ;
}

/// One normalizer: one of the provided kinds, or any other.
pub enum Normalizer {
    Lowercase(case::Lowercase),
    Uppercase(case::Uppercase),
    Punctuation(punctuation::Punctuation),
    Stopwords(Stopwords),
    Replacer(replace::TokenReplacer),
    Custom(Box<dyn TextNormalizer>),
}

impl Normalizer {
    /// The token sequence that this normalizer makes of `tokens`.
    pub open spec fn normalized(&self, tokens: Seq<Seq<char>>) -> Seq<Seq<char>> {
        match self {
            Normalizer::Lowercase(n) => n.normalized(tokens),
            Normalizer::Uppercase(n) => n.normalized(tokens),
            Normalizer::Punctuation(n) => n.normalized(tokens),
            Normalizer::Stopwords(n) => n.normalized(tokens),
            Normalizer::Replacer(n) => n.normalized(tokens),
            Normalizer::Custom(n) => n.normalized(tokens),
        }
    }

    /// The normalizer that does what `normalizer` does.
    pub fn new<T: IntoNormalizer + 'static>(normalizer: T) -> (r: Self)
        ensures
            forall|tokens: Seq<Seq<char>>| r.normalized(tokens) == normalizer.normalized(tokens),
    {
        normalizer.into_normalizer()
    }

    pub fn normalize(&self, tokens: &mut Tokens)
        ensures
            final(tokens)@ == self.normalized(old(tokens)@),
    {
        match self {
            Normalizer::Lowercase(n) => n.normalize(tokens),
            Normalizer::Uppercase(n) => n.normalize(tokens),
            Normalizer::Punctuation(n) => n.normalize(tokens),
            Normalizer::Stopwords(n) => n.normalize(tokens),
            Normalizer::Replacer(n) => n.normalize(tokens),
            Normalizer::Custom(n) => n.normalize(tokens),
        }
    }
}

/// A rewrite of one token at a time.
pub trait TokenRewrite {
    /// What the rewrite makes of the text `token`.
    spec fn rewritten(&self, token: Seq<char>) -> Seq<char>;

    fn rewrite(&self, token: &Token) -> (made: Token)
        ensures
            made@ == self.rewritten(token@),
    ;
}

/// Every token with what `rewrite` makes of it.
pub open spec fn rewritten_all<W: TokenRewrite>(rewrite: &W, tokens: Seq<Seq<char>>) -> Seq<
    Seq<char>,
> {
    tokens.map_values(|t: Seq<char>| rewrite.rewritten(t))
}

/// Puts in the place of each token what `rewrite` makes of it.
pub fn rewrite_each<W: TokenRewrite>(rewrite: &W, tokens: &mut Tokens)
    ensures
        final(tokens)@ == rewritten_all(rewrite, old(tokens)@),
{
    let mut out: Vec<Token> = Vec::new();
    let mut i: usize = 0;
    while i < tokens.0.len()
        invariant
            i <= tokens.0.len(),
            tokens.0@ == old(tokens).0@,
            texts(out@) == rewritten_all(rewrite, old(tokens)@.take(i as int)),
        decreases tokens.0.len() - i,
    {
        let made = rewrite.rewrite(&tokens.0[i]);
        proof {
            let all = old(tokens)@;
            assert(all.take(i + 1) == all.take(i as int).push(all[i as int]));
            assert(rewritten_all(rewrite, all.take(i + 1)) == rewritten_all(
                rewrite,
                all.take(i as int),
            ).push(rewrite.rewritten(all[i as int])));
            assert(texts(out@.push(made)) == texts(out@).push(made@));
        }
        out.push(made);
        i += 1;
    }
    assert(old(tokens)@.take(i as int) == old(tokens)@);
    tokens.0 = out;
}

/// A normalizer that can stand as a stage of a pipeline.
pub trait IntoNormalizer: TextNormalizer + Sized {
    /// This normalizer as a stage: the stage does what this normalizer
    /// does. A normalizer that is none of the provided kinds gives the
    /// stage `Normalizer::Custom(Box::new(self))`.
    fn into_normalizer(self) -> (r: Normalizer)
        ensures
            forall|tokens: Seq<Seq<char>>| r.normalized(tokens) == self.normalized(tokens),
    ;
}

/// What the stages make of `tokens`, applied one after the other from the
/// first to the last.
pub open spec fn apply_all(stages: Seq<Normalizer>, tokens: Seq<Seq<char>>) -> Seq<Seq<char>>
    decreases stages.len(),
{
    if stages.len() == 0 {
        tokens
    } else {
        stages.last().normalized(apply_all(stages.drop_last(), tokens))
    }
}

/// An ordered list of normalizers. Its view is the list.
pub struct NormalizerPipeline(pub Vec<Normalizer>);

impl View for NormalizerPipeline {
    type V = Seq<Normalizer>;

    open spec fn view(&self) -> Seq<Normalizer> {
        self.0@
    }
}

impl NormalizerPipeline {
    pub fn new() -> (r: Self)
        ensures
            r@.len() == 0,
    {
        NormalizerPipeline(Vec::new())
    }

    /// Adds `normalizer` as the last stage.
    pub fn insert(&mut self, normalizer: Normalizer)
        ensures
            final(self)@ == old(self)@.push(normalizer),
    {
        self.0.push(normalizer);
    }

    pub fn len(&self) -> (n: usize)
        ensures
            n == self@.len(),
    {
        self.0.len()
    }

    pub fn is_empty(&self) -> (r: bool)
        ensures
            r == (self@.len() == 0),
    {
        self.0.is_empty()
    }

    /// Applies the stages to `tokens`, in the order in which they were
    /// inserted.
    pub fn run(&self, tokens: &mut Tokens)
        ensures
            final(tokens)@ == apply_all(self@, old(tokens)@),
    {
        let mut i: usize = 0;
        while i < self.0.len()
            invariant
                i <= self.0.len(),
                tokens@ == apply_all(self@.take(i as int), old(tokens)@),
            decreases self.0.len() - i,
        {
            assert(self@.take(i + 1).drop_last() == self@.take(i as int));
            self.0[i].normalize(tokens);
            i += 1;
        }
        assert(self@.take(i as int) == self@);
    }
}

/// Each of the provided normalizers but the replacer is idempotent: applied
/// to its own result, it changes nothing.
pub proof fn lemma_provided_idempotent(normalizer: Normalizer, tokens: Seq<Seq<char>>)
    requires
        !(normalizer is Replacer),
        !(normalizer is Custom),
    ensures
        normalizer.normalized(normalizer.normalized(tokens)) == normalizer.normalized(tokens),
{
    match normalizer {
        Normalizer::Lowercase(_) => case::lemma_lowercase_all_idempotent(tokens),
        Normalizer::Uppercase(_) => case::lemma_uppercase_all_idempotent(tokens),
        Normalizer::Punctuation(_) => punctuation::lemma_strip_punctuation_all_idempotent(tokens),
        Normalizer::Stopwords(n) => stopwords::lemma_without_stopwords_idempotent(tokens, n@),
        _ => {},
    }
}

/// None of the provided normalizers makes a token where there is none.
pub proof fn lemma_provided_keeps_empty(normalizer: Normalizer)
    requires
        !(normalizer is Custom),
    ensures
        normalizer.normalized(Seq::<Seq<char>>::empty()) == Seq::<Seq<char>>::empty(),
{
    let none = Seq::<Seq<char>>::empty();
    reveal(Seq::filter);
    assert(normalizer.normalized(none) =~= none);
}

/// Whether no stage makes a token where there is none. The provided
/// normalizers make none.
pub open spec fn keeps_empty(stages: Seq<Normalizer>) -> bool {
    forall|i: int|
        0 <= i < stages.len() ==> (#[trigger] stages[i]).normalized(Seq::<Seq<char>>::empty())
            == Seq::<Seq<char>>::empty()
}

/// A pipeline of provided normalizers makes no token where there is none.
pub proof fn lemma_provided_keep_empty(stages: Seq<Normalizer>)
    requires
        forall|i: int| 0 <= i < stages.len() ==> !(#[trigger] stages[i] is Custom),
    ensures
        keeps_empty(stages),
{
    assert forall|i: int| 0 <= i < stages.len() implies (#[trigger] stages[i]).normalized(
        Seq::<Seq<char>>::empty(),
    ) == Seq::<Seq<char>>::empty() by {
        lemma_provided_keeps_empty(stages[i]);
    }
}

/// A pipeline of which no stage makes a token where there is none makes
/// none.
pub proof fn lemma_apply_all_empty(stages: Seq<Normalizer>)
    requires
        keeps_empty(stages),
    ensures
        apply_all(stages, Seq::<Seq<char>>::empty()) == Seq::<Seq<char>>::empty(),
{
    lemma_apply_all_fixed(stages, Seq::<Seq<char>>::empty());
}

/// A run on a token sequence that every stage leaves unchanged changes
/// nothing.
pub proof fn lemma_apply_all_fixed(stages: Seq<Normalizer>, tokens: Seq<Seq<char>>)
    requires
        forall|i: int| 0 <= i < stages.len() ==> (#[trigger] stages[i]).normalized(tokens) == tokens,
    ensures
        apply_all(stages, tokens) == tokens,
    decreases stages.len(),
{
    if stages.len() > 0 {
        let front = stages.drop_last();
        assert forall|i: int| 0 <= i < front.len() implies (#[trigger] front[i]).normalized(tokens)
            == tokens by {
            assert(front[i] == stages[i]);
        }
        lemma_apply_all_fixed(front, tokens);
        assert(stages.last() == stages[stages.len() - 1]);
    }
}

/// Running a pipeline a second time gives what the first run gave, on every
/// input whose result each single stage leaves unchanged.
pub proof fn lemma_pipeline_idempotent(stages: Seq<Normalizer>, tokens: Seq<Seq<char>>)
    requires
        forall|i: int|
            0 <= i < stages.len() ==> (#[trigger] stages[i]).normalized(apply_all(stages, tokens))
                == apply_all(stages, tokens),
    ensures
        apply_all(stages, apply_all(stages, tokens)) == apply_all(stages, tokens),
{
    lemma_apply_all_fixed(stages, apply_all(stages, tokens));
}

/// A pipeline of one stage does what the stage does.
pub proof fn lemma_apply_all_single(stage: Normalizer, tokens: Seq<Seq<char>>)
    ensures
        apply_all(seq![stage], tokens) == stage.normalized(tokens),
{
    let stages = seq![stage];
    assert(stages.drop_last() =~= Seq::<Normalizer>::empty());
    assert(stages.last() == stage);
    assert(apply_all(stages.drop_last(), tokens) == tokens);
}

/// A pipeline of one idempotent stage is idempotent.
pub proof fn lemma_single_stage_idempotent(stage: Normalizer, tokens: Seq<Seq<char>>)
    requires
        stage.normalized(stage.normalized(tokens)) == stage.normalized(tokens),
    ensures
        apply_all(seq![stage], apply_all(seq![stage], tokens)) == apply_all(seq![stage], tokens),
{
    lemma_apply_all_single(stage, tokens);
    lemma_apply_all_single(stage, stage.normalized(tokens));
}

/// Every character of `s` is its own lower-case form.
pub open spec fn is_lowercase(s: Seq<char>) -> bool {
    forall|i: int| 0 <= i < s.len() ==> lower_char(#[trigger] s[i]) == s[i]
}

/// No character of `s` is punctuation.
pub open spec fn has_no_punctuation(s: Seq<char>) -> bool {
    forall|i: int| 0 <= i < s.len() ==> !is_punctuation(#[trigger] s[i])
}

/// A text that is lower-cased and then stripped of punctuation is in lower
/// case and without punctuation, and so is left as it is by both rewrites.
proof fn lemma_folded_and_stripped(x: Seq<char>)
    ensures
        lowercase(strip_punctuation(lowercase(x))) == strip_punctuation(lowercase(x)),
        strip_punctuation(strip_punctuation(lowercase(x))) == strip_punctuation(lowercase(x)),
{
    let folded = lowercase(x);
    let stripped = strip_punctuation(folded);
    crate::text::lemma_strip_punctuation_idempotent(folded);
    assert forall|i: int| 0 <= i < stripped.len() implies lower_char(#[trigger] stripped[i])
        == stripped[i] by {
        assert(stripped.contains(stripped[i]));
        folded.lemma_filter_contains_rev(|c: char| !is_punctuation(c), stripped[i]);
        let k = choose|k: int| 0 <= k < folded.len() && folded[k] == stripped[i];
        assert(folded[k] == lower_char(x[k]));
    }
    assert(lowercase(stripped) =~= stripped);
}

/// The pipeline that folds to lower case, strips punctuation and then
/// removes stop words is idempotent, whatever the stop words are.
pub proof fn lemma_fold_strip_stop_idempotent(stages: Seq<Normalizer>, tokens: Seq<Seq<char>>)
    requires
        stages.len() == 3,
        stages[0] is Lowercase,
        stages[1] is Punctuation,
        stages[2] is Stopwords,
    ensures
        apply_all(stages, tokens) == without_stopwords(
            strip_punctuation_all(lowercase_all(tokens)),
            stages[2]->Stopwords_0@,
        ),
        apply_all(stages, apply_all(stages, tokens)) == apply_all(stages, tokens),
{
    let words = stages[2]->Stopwords_0@;
    let stripped = strip_punctuation_all(lowercase_all(tokens));
    let result = without_stopwords(stripped, words);
    // What the pipeline computes.
    assert(stages.drop_last().drop_last().drop_last() =~= Seq::<Normalizer>::empty());
    assert(stages.drop_last().drop_last().last() == stages[0]);
    assert(stages.drop_last().last() == stages[1]);
    assert(stages.last() == stages[2]);
    assert(apply_all(stages.drop_last().drop_last().drop_last(), tokens) == tokens);
    assert(apply_all(stages.drop_last().drop_last(), tokens) == lowercase_all(tokens));
    assert(apply_all(stages.drop_last(), tokens) == stripped);
    assert(apply_all(stages, tokens) == result);
    // Each token of the result is a token of the stripped sequence.
    assert forall|i: int| 0 <= i < result.len() implies lowercase(#[trigger] result[i])
        == result[i] && strip_punctuation(result[i]) == result[i] by {
        assert(result.contains(result[i]));
        stripped.lemma_filter_contains_rev(
            |t: Seq<char>| !words.contains(lowercase(t)),
            result[i],
        );
        let k = choose|k: int| 0 <= k < stripped.len() && stripped[k] == result[i];
        lemma_folded_and_stripped(tokens[k]);
    }
    assert(lowercase_all(result) =~= result);
    assert(strip_punctuation_all(result) =~= result);
    stopwords::lemma_without_stopwords_idempotent(stripped, words);
    assert forall|i: int| 0 <= i < stages.len() implies (#[trigger] stages[i]).normalized(result)
        == result by {}
    lemma_pipeline_idempotent(stages, tokens);
}

} // verus!

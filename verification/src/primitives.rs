//! The reference primitive parser: a literal matcher. It compares its
//! expected literal against the cursor one extended grapheme cluster at a
//! time, consuming matched graphemes, and hands its outcome to the
//! continuation only through a deferred call, never by calling it directly.

use crate::outcome::{failure, success, FailureModel, OutcomeModel, ParseOutcome};
use crate::stream::{graphemes_of, split_graphemes, Stream, StreamModel};
use crate::trampoline::Call;
use vstd::prelude::*;
use vstd::string::StringExecFns;

verus! {

/// How many graphemes of `expected`, starting at index `k`, match `input`
/// grapheme for grapheme from offset `from` before the first mismatch or the
/// end of the input.
pub open spec fn match_count_from(
    expected: Seq<Seq<char>>,
    input: Seq<Seq<char>>,
    k: int,
    from: int,
) -> nat
    decreases expected.len() - k,
{
    if k < 0 || k >= expected.len() {
        0
    } else if 0 <= from && from < input.len() && input[from] == expected[k] {
        (1 + match_count_from(expected, input, k + 1, from + 1)) as nat
    } else {
        0
    }
}

/// How many graphemes of `expected` match `input` grapheme for grapheme from
/// offset `from`: the whole of `expected` exactly when the match succeeds.
pub open spec fn match_count(expected: Seq<Seq<char>>, input: Seq<Seq<char>>, from: int) -> nat {
    match_count_from(expected, input, 0, from)
}

/// The failure message reported on a mismatch, built from the whole expected
/// literal and the grapheme actually found.
pub open spec fn mismatch_message(literal: Seq<char>, found: Seq<char>) -> Seq<char> {
    "Expected `"@ + literal + "` but found `"@ + found + "`."@
}

/// When the first `i` graphemes starting at `expected[k]` match the input
/// from `from`, the count from `k` is those `i` plus the count of the rest.
proof fn lemma_match_count_prefix(
    expected: Seq<Seq<char>>,
    input: Seq<Seq<char>>,
    k: int,
    i: int,
    from: int,
)
    requires
        0 <= i,
        0 <= k,
        0 <= from,
        k + i <= expected.len(),
        from + i <= input.len(),
        forall|j: int|
            #![trigger input[j]]
            from <= j < from + i ==> input[j] == expected[k + (j - from)],
    ensures
        match_count_from(expected, input, k, from) == i + match_count_from(
            expected,
            input,
            k + i,
            from + i,
        ),
    decreases i,
{
    if i > 0 {
        assert(input[from] == expected[k + (from - from)]);
        assert forall|j: int| from + 1 <= j < (from + 1) + (i - 1) implies input[j] == expected[(k
            + 1) + (j - (from + 1))] by {
            assert(input[j] == expected[k + (j - from)]);
        }
        lemma_match_count_prefix(expected, input, k + 1, i - 1, from + 1);
    }
}

/// Build the mismatch message for `literal` and the `found` grapheme.
fn build_message(literal: &str, found: &str) -> (r: String)
    ensures
        r@ == mismatch_message(literal@, found@),
{
    let mut message = String::new();
    message.append("Expected `");
    message.append(literal);
    message.append("` but found `");
    message.append(found);
    message.append("`.");
    proof {
        assert(message@ =~= mismatch_message(literal@, found@));
    }
    message
}

/// A primitive parser matching one fixed literal, decomposed into extended
/// grapheme clusters so that a multi-codepoint cluster is compared as one
/// unit.
pub struct LiteralParser {
    expected_string: String,
    graphemes: Vec<String>,
}

impl LiteralParser {
    /// The characters of the expected literal.
    pub closed spec fn spec_literal(self) -> Seq<char> {
        self.expected_string@
    }

    /// The expected literal as its ordered grapheme clusters.
    pub closed spec fn spec_graphemes(self) -> Seq<Seq<char>> {
        self.graphemes@.map_values(|g: String| g@)
    }

    /// The stored clusters are exactly the decomposition of the literal.
    pub open spec fn wf(self) -> bool {
        self.spec_graphemes() == graphemes_of(self.spec_literal())
    }

    /// A literal matcher for `expected`.
    pub fn new(expected: String) -> (r: Self)
        ensures
            r.spec_literal() == expected@,
            r.wf(),
    {
        let graphemes = split_graphemes(expected.as_str());
        LiteralParser { expected_string: expected, graphemes }
    }

    /// What one parse attempt starting from the cursor state `before` leaves
    /// behind: the cursor advances over exactly the matched prefix; a full
    /// match succeeds with the literal itself, and anything less fails with
    /// one failure record naming the literal, the grapheme found at the
    /// mismatch, and the cursor's offset there.
    pub open spec fn parse_result(
        self,
        before: StreamModel,
        after: StreamModel,
        outcome: OutcomeModel<String>,
    ) -> bool {
        let k = match_count(self.spec_graphemes(), before.graphemes, before.offset) as int;
        let at_mismatch = StreamModel { graphemes: before.graphemes, offset: before.offset + k };
        &&& after.graphemes == before.graphemes
        &&& after.offset == before.offset + k
        &&& if k == self.spec_graphemes().len() {
            &&& outcome.value matches Some(s) && s@ == self.spec_literal()
            &&& outcome.failures == Seq::<FailureModel>::empty()
        } else {
            outcome == OutcomeModel::<String>::failing(
                mismatch_message(self.spec_literal(), at_mismatch.peek()),
                before.offset + k,
            )
        }
    }

    /// Match the expected literal against the cursor, grapheme by grapheme,
    /// consuming each matched grapheme and stopping at the first mismatch.
    #[verifier::loop_isolation(false)]
    pub fn parse(&self, stream: Stream) -> (r: (Stream, ParseOutcome<String>))
        requires
            self.wf(),
            stream@.wf(),
        ensures
            r.0@.wf(),
            self.parse_result(stream@, r.0@, r.1@),
    {
        let ghost before = stream@;
        let mut stream = stream;
        let mut i: usize = 0;
        while i < self.graphemes.len()
            invariant
                stream@.wf(),
                stream@.graphemes == before.graphemes,
                i <= self.graphemes.len(),
                stream@.offset == before.offset + i,
                forall|j: int|
                    #![trigger before.graphemes[j]]
                    before.offset <= j < before.offset + i ==> before.graphemes[j]
                        == self.spec_graphemes()[j - before.offset],
            decreases self.graphemes.len() - i,
        {
            let expected_grapheme = &self.graphemes[i];
            let grapheme_matches = match stream.next() {
                Some(g) => *g == *expected_grapheme,
                None => false,
            };
            if grapheme_matches {
                stream.read();
                i = i + 1;
            } else {
                let position = stream.position();
                let found = match stream.next() {
                    Some(g) => g.clone(),
                    None => String::new(),
                };
                let message = build_message(self.expected_string.as_str(), found.as_str());
                proof {
                    lemma_match_count_prefix(
                        self.spec_graphemes(),
                        before.graphemes,
                        0,
                        i as int,
                        before.offset,
                    );
                }
                return (stream, failure(message, position));
            }
        }
        proof {
            lemma_match_count_prefix(
                self.spec_graphemes(),
                before.graphemes,
                0,
                i as int,
                before.offset,
            );
        }
        (stream, success(self.expected_string.clone()))
    }

    /// One primitive step: match eagerly, then hand the cursor and the
    /// outcome to `continuation` as a deferred call for the trampoline to
    /// perform — the primitive itself never invokes the continuation.
    pub fn call<F>(&self, stream: Stream, continuation: F) -> (c: Call<
        F,
        (Stream, ParseOutcome<String>),
    >)
        requires
            self.wf(),
            stream@.wf(),
        ensures
            c.function == continuation,
            c.args.0@.wf(),
            self.parse_result(stream@, c.args.0@, c.args.1@),
    {
        let (stream, outcome) = self.parse(stream);
        Call { function: continuation, args: (stream, outcome) }
    }
}

} // verus!

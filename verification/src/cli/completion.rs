//! Tab completion of command names.
use vstd::prelude::*;

use crate::eval::command::{all_builtins, builtin_names, BuiltinCommand};
use crate::text::{is_prefix, same_text, starts_with};

verus! {

/// The completions offered for `input` among `candidates`: those that begin
/// with `input`, each once, in the order of their first appearance.
pub open spec fn matches_of(candidates: Seq<Seq<char>>, input: Seq<char>) -> Seq<Seq<char>>
    decreases candidates.len(),
{
    if candidates.len() == 0 {
        seq![]
    } else {
        let m = matches_of(candidates.drop_last(), input);
        let c = candidates.last();
        if is_prefix(input, c) && !m.contains(c) {
            m.push(c)
        } else {
            m
        }
    }
}

/// The words that a command name is completed to: the builtins' names, then the
/// names of the programs found.
pub open spec fn completion_candidates(programs: Seq<Seq<char>>) -> Seq<Seq<char>> {
    builtin_names() + programs
}

/// What the completer remembers between two presses of the tab key.
#[derive(Debug)]
pub struct PeshCompletion {
    last_input: Option<String>,
    last_completion: Option<String>,
    last_completion_shifts: usize,
}

/// The completer's memory as a mathematical value.
pub struct CompletionView {
    pub last_input: Option<Seq<char>>,
    pub last_completion: Option<Seq<char>>,
    pub last_completion_shifts: nat,
}

impl View for PeshCompletion {
    type V = CompletionView;

    closed spec fn view(&self) -> CompletionView {
        CompletionView {
            last_input: self.last_input.deep_view(),
            last_completion: self.last_completion.deep_view(),
            last_completion_shifts: self.last_completion_shifts as nat,
        }
    }
}

/// Whether the previous completion no longer fits what is typed: there was
/// one, and it does not begin with `input`.
pub open spec fn completion_is_stale(st: CompletionView, input: Seq<char>) -> bool {
    st.last_completion matches Some(s) && !is_prefix(input, s)
}

/// The position a press starts from: the remembered one, or the first match
/// where the previous completion no longer fits what is typed.
pub open spec fn completion_position(st: CompletionView, input: Seq<char>) -> nat {
    if completion_is_stale(st, input) {
        0
    } else {
        st.last_completion_shifts
    }
}

/// The completion offered for `input`: the match at the press's position,
/// counted round from the first match again past the last one; `None` where
/// nothing matches.
pub open spec fn completion_for(
    st: CompletionView,
    input: Seq<char>,
    programs: Seq<Seq<char>>,
) -> Option<Seq<char>> {
    let m = matches_of(completion_candidates(programs), input);
    if m.len() > 0 {
        Some(m[(completion_position(st, input) % m.len()) as int])
    } else {
        None
    }
}

/// The completer's memory after offering a completion for `input`: the offer;
/// the position after the offered match (so that the next press with the same
/// input offers the next match), or the press's position where nothing
/// matched; and `input` as the last input, unless the previous completion was
/// stale.
pub open spec fn completion_after(
    st: CompletionView,
    input: Seq<char>,
    programs: Seq<Seq<char>>,
) -> CompletionView {
    let m = matches_of(completion_candidates(programs), input);
    let pos = completion_position(st, input);
    CompletionView {
        last_input: if completion_is_stale(st, input) {
            st.last_input
        } else {
            Some(input)
        },
        last_completion: completion_for(st, input, programs),
        last_completion_shifts: if m.len() > 0 {
            (pos % m.len() + 1) as nat
        } else {
            pos
        },
    }
}

/// The completer's memory after `k` presses with the same input.
pub open spec fn after_presses(
    st: CompletionView,
    input: Seq<char>,
    programs: Seq<Seq<char>>,
    k: nat,
) -> CompletionView
    decreases k,
{
    if k == 0 {
        st
    } else {
        completion_after(after_presses(st, input, programs, (k - 1) as nat), input, programs)
    }
}

/// The completion offered by the press after `i` presses with the same input.
pub open spec fn offer_at(
    st: CompletionView,
    input: Seq<char>,
    programs: Seq<Seq<char>>,
    i: nat,
) -> Option<Seq<char>> {
    completion_for(after_presses(st, input, programs, i), input, programs)
}

/// Whether `word` is among `words`.
fn contains_word(words: &Vec<String>, word: &str) -> (r: bool)
    ensures
        r == words.deep_view().contains(word@),
{
    let mut i: usize = 0;
    while i < words.len()
        invariant
            i <= words@.len(),
            forall|k: int| 0 <= k < i ==> words.deep_view()[k] != word@,
        decreases words@.len() - i,
    {
        if same_text(words[i].as_str(), word) {
            assert(words.deep_view()[i as int] == word@);
            return true;
        }
        i = i + 1;
    }
    proof {
        assert(!words.deep_view().contains(word@));
    }
    false
}

impl PeshCompletion {
    /// A completer that remembers nothing.
    pub fn new() -> (r: Self)
        ensures
            r@ == (CompletionView {
                last_input: None,
                last_completion: None,
                last_completion_shifts: 0,
            }),
    {
        Self { last_input: None, last_completion: None, last_completion_shifts: 0 }
    }

    fn last_completion_shifts(&self) -> (r: usize)
        ensures
            r == self@.last_completion_shifts,
    {
        self.last_completion_shifts
    }

    fn set_last_completion_shifts(&mut self, last_completion_shifts: usize)
        ensures
            final(self)@ == (CompletionView {
                last_completion_shifts: last_completion_shifts as nat,
                ..old(self)@
            }),
    {
        self.last_completion_shifts = last_completion_shifts;
    }

    fn last_completion(&self) -> (r: Option<String>)
        ensures
            r.deep_view() == self@.last_completion,
    {
        match &self.last_completion {
            Some(s) => Some(s.clone()),
            None => None,
        }
    }

    fn set_last_completion(&mut self, last_completion: Option<String>)
        ensures
            final(self)@ == (CompletionView {
                last_completion: last_completion.deep_view(),
                ..old(self)@
            }),
    {
        self.last_completion = last_completion;
    }

    fn last_input(&self) -> (r: Option<String>)
        ensures
            r.deep_view() == self@.last_input,
    {
        match &self.last_input {
            Some(s) => Some(s.clone()),
            None => None,
        }
    }

    fn set_last_input(&mut self, last_input: Option<String>)
        ensures
            final(self)@ == (CompletionView { last_input: last_input.deep_view(), ..old(self)@ }),
    {
        self.last_input = last_input;
    }

    /// The completions for `input`: the builtins' names and the names of the
    /// programs found (`programs`) that begin with `input`, each once.
    pub fn find_matches_for(&self, input: &str, programs: &[String]) -> (r: Vec<String>)
        ensures
            r.deep_view() == matches_of(completion_candidates(programs.deep_view()), input@),
    {
        let ghost cands = completion_candidates(programs.deep_view());
        let builtins = BuiltinCommand::all();
        let mut options: Vec<String> = Vec::new();
        let mut i: usize = 0;
        while i < builtins.len()
            invariant
                builtins@.len() == 5,
                forall|k: int| 0 <= k < 5 ==> #[trigger] builtins@[k]@ == all_builtins()[k],
                i <= 5,
                options.deep_view() == builtin_names().take(i as int),
            decreases 5 - i,
        {
            let name = String::from_str(builtins[i].name());
            assert(name@ == builtin_names()[i as int]);
            let ghost before = options@;
            let ghost before_deep = options.deep_view();
            options.push(name);
            assert(before_deep.len() == before.len());
            assert forall|k: int| 0 <= k < options@.len() implies options.deep_view()[k]
                == builtin_names().take(i + 1)[k] by {
                if k < before.len() {
                    assert(options@[k] == before[k]);
                }
            }
            assert(options.deep_view() =~= builtin_names().take(i + 1));
            i = i + 1;
        }
        let mut j: usize = 0;
        while j < programs.len()
            invariant
                j <= programs@.len(),
                options.deep_view() == builtin_names() + programs.deep_view().take(j as int),
            decreases programs@.len() - j,
        {
            let p = programs[j].clone();
            assert(p@ == programs.deep_view()[j as int]);
            let ghost before = options@;
            let ghost before_deep = options.deep_view();
            options.push(p);
            assert(before_deep.len() == before.len());
            assert(before_deep.len() == 5 + j);
            assert forall|k: int| 0 <= k < options@.len() implies options.deep_view()[k]
                == (builtin_names() + programs.deep_view().take(j + 1))[k] by {
                if k < before.len() {
                    assert(options@[k] == before[k]);
                    assert(before_deep[k] == (builtin_names() + programs.deep_view().take(
                        j as int,
                    ))[k]);
                } else {
                    assert(options@[k] == p);
                }
            }
            assert(options.deep_view() =~= builtin_names() + programs.deep_view().take(j + 1));
            j = j + 1;
        }
        assert(programs.deep_view().take(programs@.len() as int) =~= programs.deep_view());
        assert(options.deep_view() == cands);
        let mut found: Vec<String> = Vec::new();
        let mut k: usize = 0;
        assert(cands.take(0) =~= seq![]);
        assert(found.deep_view() =~= seq![]);
        while k < options.len()
            invariant
                options.deep_view() == cands,
                k <= options@.len(),
                found.deep_view() == matches_of(cands.take(k as int), input@),
            decreases options@.len() - k,
        {
            assert(cands.take(k + 1).drop_last() =~= cands.take(k as int));
            assert(cands.take(k + 1).last() == options@[k as int]@);
            let o = options[k].as_str();
            if starts_with(o, input) && !contains_word(&found, o) {
                let w = options[k].clone();
                let ghost before = found@;
                let ghost before_deep = found.deep_view();
                found.push(w);
                assert(before_deep.len() == before.len());
                assert forall|q: int| 0 <= q < found@.len() implies found.deep_view()[q]
                    == before_deep.push(w@)[q] by {
                    if q < before.len() {
                        assert(found@[q] == before[q]);
                    }
                }
                assert(found.deep_view() =~= before_deep.push(w@));
            }
            k = k + 1;
        }
        assert(cands.take(options@.len() as int) =~= cands);
        found
    }

    /// Offers a completion for `input` among the builtins' names and the names of
    /// the programs found (`programs`), and remembers it (see `completion_for`
    /// and `completion_after`). Repeated presses with the same input scroll
    /// through the matches, one per press, and come round to the first again
    /// after the last.
    pub fn get(&mut self, input: &str, programs: &[String]) -> (r: Option<String>)
        ensures
            r.deep_view() == completion_for(old(self)@, input@, programs.deep_view()),
            final(self)@ == completion_after(old(self)@, input@, programs.deep_view()),
    {
        let mut followup = false;
        match self.last_completion() {
            Some(s) => {
                if !starts_with(s.as_str(), input) {
                    self.set_last_completion(None);
                    self.set_last_completion_shifts(0);
                    followup = true;
                }
            },
            None => {},
        }
        let matches = self.find_matches_for(input, programs);
        let shifts = self.last_completion_shifts();
        let res: Option<String> = if matches.len() > 0 {
            let pos = shifts % matches.len();
            self.set_last_completion_shifts(pos + 1);
            Some(matches[pos].clone())
        } else {
            None
        };
        let copy: Option<String> = match &res {
            Some(s) => Some(s.clone()),
            None => None,
        };
        self.set_last_completion(copy);
        if !followup {
            self.set_last_input(Some(String::from_str(input)));
        }
        res
    }
}

/// Every completion offered begins with the input and is one of the
/// candidates; every candidate that begins with the input is offered; and none
/// is offered twice.
pub proof fn law_matches_are_exactly_the_fitting_candidates(
    candidates: Seq<Seq<char>>,
    input: Seq<char>,
)
    ensures
        forall|w: Seq<char>|
            #[trigger] matches_of(candidates, input).contains(w) <==> (candidates.contains(w)
                && is_prefix(input, w)),
        matches_of(candidates, input).no_duplicates(),
    decreases candidates.len(),
{
    if candidates.len() > 0 {
        let init = candidates.drop_last();
        let c = candidates.last();
        law_matches_are_exactly_the_fitting_candidates(init, input);
        let m = matches_of(init, input);
        assert forall|w: Seq<char>| candidates.contains(w) <==> (init.contains(w) || w == c) by {
            if candidates.contains(w) {
                let k = choose|k: int| 0 <= k < candidates.len() && candidates[k] == w;
                if k < init.len() {
                    assert(init[k] == w);
                }
            }
            if init.contains(w) {
                let k = choose|k: int| 0 <= k < init.len() && init[k] == w;
                assert(candidates[k] == w);
            }
            if w == c {
                assert(candidates[candidates.len() - 1] == w);
            }
        }
        if is_prefix(input, c) && !m.contains(c) {
            assert forall|w: Seq<char>| m.push(c).contains(w) <==> (m.contains(w) || w == c) by {
                if m.push(c).contains(w) {
                    let k = choose|k: int| 0 <= k < m.push(c).len() && m.push(c)[k] == w;
                    if k < m.len() {
                        assert(m[k] == w);
                    }
                }
                if m.contains(w) {
                    let k = choose|k: int| 0 <= k < m.len() && m[k] == w;
                    assert(m.push(c)[k] == w);
                }
                if w == c {
                    assert(m.push(c)[m.len() as int] == w);
                }
            }
            assert forall|w: Seq<char>| #[trigger]
                matches_of(candidates, input).contains(w) <==> (candidates.contains(w) && is_prefix(
                    input,
                    w,
                )) by {
                assert(m.contains(w) <==> (init.contains(w) && is_prefix(input, w)));
            }
            assert forall|a: int, b: int|
                0 <= a < m.push(c).len() && 0 <= b < m.push(c).len() && a != b implies m.push(
                c,
            )[a] != m.push(c)[b] by {
                if a == m.len() {
                    assert(m.contains(m[b]));
                } else if b == m.len() {
                    assert(m.contains(m[a]));
                }
            }
        } else {
            assert forall|w: Seq<char>| #[trigger]
                matches_of(candidates, input).contains(w) <==> (candidates.contains(w) && is_prefix(
                    input,
                    w,
                )) by {
                assert(m.contains(w) <==> (init.contains(w) && is_prefix(input, w)));
            }
        }
    } else {
        assert forall|w: Seq<char>| #[trigger]
            matches_of(candidates, input).contains(w) <==> (candidates.contains(w) && is_prefix(
                input,
                w,
            )) by {
            assert(matches_of(candidates, input) =~= seq![]);
        }
    }
}

/// A completion that is offered begins with what was typed, and is a builtin's
/// name or the name of a program found.
pub proof fn law_offered_completion_fits(
    st: CompletionView,
    input: Seq<char>,
    programs: Seq<Seq<char>>,
)
    ensures
        completion_for(st, input, programs) matches Some(w) ==> is_prefix(input, w)
            && completion_candidates(programs).contains(w),
{
    let cands = completion_candidates(programs);
    law_matches_are_exactly_the_fitting_candidates(cands, input);
    let m = matches_of(cands, input);
    if m.len() > 0 {
        let w = m[(completion_position(st, input) % m.len()) as int];
        assert(m.contains(w));
    }
}

proof fn lemma_scroll_state(
    st: CompletionView,
    input: Seq<char>,
    programs: Seq<Seq<char>>,
    i: nat,
)
    requires
        completion_position(st, input) == 0,
        i <= matches_of(completion_candidates(programs), input).len(),
    ensures
        completion_position(after_presses(st, input, programs, i), input) == i,
        i > 0 ==> after_presses(st, input, programs, i).last_completion == Some(
            matches_of(completion_candidates(programs), input)[i - 1],
        ),
    decreases i,
{
    let m = matches_of(completion_candidates(programs), input);
    if i > 0 {
        lemma_scroll_state(st, input, programs, (i - 1) as nat);
        law_matches_are_exactly_the_fitting_candidates(completion_candidates(programs), input);
        vstd::arithmetic::div_mod::lemma_small_mod((i - 1) as nat, m.len());
        let w = m[i - 1];
        assert(m.contains(w));
        assert(is_prefix(input, w));
    }
}

/// Repeated tab presses scroll through the completions: starting from the first
/// match (a fresh completer, or one whose previous completion no longer fits),
/// the press after `i` presses with the same input offers the `i`-th match, so
/// that as many presses as there are matches offer every match, each once.
pub proof fn law_repeated_presses_scroll(
    st: CompletionView,
    input: Seq<char>,
    programs: Seq<Seq<char>>,
)
    requires
        completion_position(st, input) == 0,
    ensures
        forall|i: nat|
            i < matches_of(completion_candidates(programs), input).len() ==> #[trigger] offer_at(
                st,
                input,
                programs,
                i,
            ) == Some(matches_of(completion_candidates(programs), input)[i as int]),
        forall|i: nat, j: nat|
            i < j < matches_of(completion_candidates(programs), input).len() ==> #[trigger] offer_at(
                st,
                input,
                programs,
                i,
            ) != #[trigger] offer_at(st, input, programs, j),
        forall|w: Seq<char>|
            #[trigger] matches_of(completion_candidates(programs), input).contains(w) ==> exists|
                i: nat,
            |
                i < matches_of(completion_candidates(programs), input).len() && #[trigger] offer_at(
                    st,
                    input,
                    programs,
                    i,
                ) == Some(w),
{
    let m = matches_of(completion_candidates(programs), input);
    law_matches_are_exactly_the_fitting_candidates(completion_candidates(programs), input);
    assert forall|i: nat| i < m.len() implies #[trigger] offer_at(st, input, programs, i) == Some(
        m[i as int],
    ) by {
        lemma_scroll_state(st, input, programs, i);
        vstd::arithmetic::div_mod::lemma_small_mod(i, m.len());
    }
    assert forall|i: nat, j: nat| i < j < m.len() implies #[trigger] offer_at(
        st,
        input,
        programs,
        i,
    ) != #[trigger] offer_at(st, input, programs, j) by {
        assert(offer_at(st, input, programs, i) == Some(m[i as int]));
        assert(offer_at(st, input, programs, j) == Some(m[j as int]));
    }
    assert forall|w: Seq<char>| #[trigger] m.contains(w) implies exists|i: nat|
        i < m.len() && #[trigger] offer_at(st, input, programs, i) == Some(w) by {
        let k = choose|k: int| 0 <= k < m.len() && m[k] == w;
        assert(offer_at(st, input, programs, k as nat) == Some(m[k]));
    }
}

} // verus!

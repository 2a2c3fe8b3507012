//! The model slot: at most one loaded model, replaced when another is asked for.
//! The slot lives as long as the process; the caller keeps it behind one lock and
//! holds that lock from the look at the slot to the end of the inference.

use vstd::prelude::*;
use vstd::string::*;

verus! {

/// A loaded model: the engine's context and the identifier it was loaded for.
pub struct ModelCacheEntry<C> {
    pub loaded_context: C,
    pub identifier: String,
}

/// The one place where a loaded model is kept.
pub struct ModelSlot<C> {
    entry: Option<ModelCacheEntry<C>>,
}

/// A call for `requested` has to load a model first: the slot is empty or holds another.
pub open spec fn must_load(loaded: Option<Seq<char>>, requested: Seq<char>) -> bool {
    loaded != Some(requested)
}

impl<C> ModelSlot<C> {
    /// The identifier of the loaded model, if one is loaded.
    pub closed spec fn loaded(&self) -> Option<Seq<char>> {
        match self.entry {
            Some(entry) => Some(entry.identifier@),
            None => None,
        }
    }

    /// The loaded context, if a model is loaded.
    pub closed spec fn context_view(&self) -> Option<C> {
        match self.entry {
            Some(entry) => Some(entry.loaded_context),
            None => None,
        }
    }

    /// The slot at process start.
    pub fn empty() -> (slot: ModelSlot<C>)
        ensures
            slot.loaded() is None,
            slot.context_view() is None,
    {
        ModelSlot { entry: None }
    }

    /// Whether a call for `requested` has to load a model before it can run.
    pub fn needs_load(&self, requested: &str) -> (r: bool)
        ensures
            r == must_load(self.loaded(), requested@),
    {
        match &self.entry {
            None => true,
            Some(entry) => {
                let wanted: String = String::from_str(requested);
                entry.identifier != wanted
            },
        }
    }

    /// Puts a freshly loaded model into the slot; what was there is dropped.
    pub fn install(&mut self, identifier: String, context: C)
        ensures
            final(self).loaded() == Some(identifier@),
            final(self).context_view() == Some(context),
    {
        self.entry = Some(ModelCacheEntry { loaded_context: context, identifier });
    }

    /// Takes note of a load that failed. Where the files of the new model were never
    /// opened the slot keeps what it holds; otherwise it is emptied.
    pub fn load_failed(&mut self, files_opened: bool)
        ensures
            files_opened ==> final(self).loaded() is None && final(self).context_view() is None,
            !files_opened ==> *final(self) == *old(self),
    {
        if files_opened {
            self.entry = None;
        }
    }

    /// The loaded context, for the run that follows.
    pub fn context(&self) -> (c: Option<&C>)
        ensures
            match c {
                Some(context) => self.context_view() == Some(*context),
                None => self.context_view() is None,
            },
    {
        match &self.entry {
            Some(entry) => Some(&entry.loaded_context),
            None => None,
        }
    }
}

/// Number of loads that a run of calls performs, one call after the other under the
/// lock, from a slot that holds `loaded`; every load is taken to succeed.
pub open spec fn loads(loaded: Option<Seq<char>>, requests: Seq<Seq<char>>) -> nat
    decreases requests.len(),
{
    if requests.len() == 0 {
        0
    } else {
        let rest = loads(Some(requests[0]), requests.drop_first());
        if must_load(loaded, requests[0]) {
            1 + rest
        } else {
            rest
        }
    }
}

/// A call for the model that the slot holds loads nothing; a call for any other
/// model, or into an empty slot, loads.
pub proof fn lemma_reload_only_on_change(first: Seq<char>, second: Seq<char>)
    ensures
        !must_load(Some(first), first),
        must_load(Some(first), second) <==> first != second,
        must_load(None, first),
{
}

/// Two calls for one model, one after the other, load it at most once; a call for a
/// model followed by a call for another loads the second exactly once.
pub proof fn lemma_loads_of_two_calls(
    loaded: Option<Seq<char>>,
    first: Seq<char>,
    second: Seq<char>,
)
    ensures
        loads(loaded, seq![first, first]) <= 1,
        first != second ==> loads(Some(first), seq![second]) == 1,
        first != second ==> loads(loaded, seq![first, second]) == loads(loaded, seq![first]) + 1,
{
    reveal_with_fuel(loads, 3);
    assert(seq![first, first].drop_first() =~= seq![first]);
    assert(seq![first, second].drop_first() =~= seq![second]);
    assert(seq![first].drop_first() =~= Seq::<Seq<char>>::empty());
    assert(seq![second].drop_first() =~= Seq::<Seq<char>>::empty());
}

/// A lower-case letter of the Latin alphabet.
pub open spec fn is_lower_letter(c: char) -> bool {
    0x61 <= c as u32 <= 0x7a
}

/// The language hint for a locale tag: its first two characters where both are
/// lower-case letters, and English otherwise.
pub open spec fn hint_of(tag: Seq<char>) -> Seq<char> {
    if tag.len() >= 2 && is_lower_letter(tag[0]) && is_lower_letter(tag[1]) {
        tag.take(2)
    } else {
        "en"@
    }
}

fn lower_letter(c: char) -> (r: bool)
    ensures
        r == is_lower_letter(c),
{
    let u: u32 = c as u32;
    0x61 <= u && u <= 0x7a
}

/// Shortens a locale tag such as `en-US` to the two-letter code that the engine takes.
pub fn language_hint(tag: &str) -> (hint: String)
    ensures
        hint@ == hint_of(tag@),
{
    if tag.unicode_len() >= 2 && lower_letter(tag.get_char(0)) && lower_letter(tag.get_char(1)) {
        String::from_str(tag.substring_char(0, 2))
    } else {
        String::from_str("en")
    }
}

/// How the engine is to decode one clip.
#[derive(Debug)]
pub struct DecodingOptions {
    /// Two-letter language code.
    pub language: String,
    /// Take the most likely token at each step, so that a clip always gives the same
    /// text.
    pub greedy: bool,
    /// Let the text of earlier clips steer this one.
    pub carry_context: bool,
    /// Keep the tokens for blank audio out of the text.
    pub suppress_blank: bool,
    /// Force the whole clip into one segment.
    pub single_segment: bool,
}

/// The options for a clip in the language that `language_code` names: decoding is
/// greedy, nothing is carried over from clip to clip, blank tokens are suppressed,
/// and the engine may split the clip into segments.
pub fn decoding_options(language_code: &str) -> (options: DecodingOptions)
    ensures
        options.language@ == hint_of(language_code@),
        options.greedy,
        !options.carry_context,
        options.suppress_blank,
        !options.single_segment,
{
    DecodingOptions {
        language: language_hint(language_code),
        greedy: true,
        carry_context: false,
        suppress_blank: true,
        single_segment: false,
    }
}

} // verus!

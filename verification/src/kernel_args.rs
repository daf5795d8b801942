//! The boot argument parser: reads the identifiers of the system and
//! user data partitions out of the kernel command line.

use crate::error::{Error, ErrorView, RequiredKey};
use crate::text::{
    chars_of, find_char, find_in_span, span_equals, spans_of, spans_within, split_once,
    span_text, split_whitespace, strip_prefixes, without_prefixes, word_spans, Span,
};
use vstd::prelude::*;

verus! {

/// The boot arguments: references to the two data partitions, as the
/// command line gives them, a leading `UUID=` included. A value is
/// built once, from the command line, and not changed afterwards.
#[derive(Clone, Debug, PartialEq, Eq)]
pub struct Args {
    pub user_data_partition: String,
    pub system_data_partition: String,
}

/// The mathematical content of [`Args`].
pub struct ArgsView {
    pub user_data_partition: Seq<char>,
    pub system_data_partition: Seq<char>,
}

impl View for Args {
    type V = ArgsView;

    open spec fn view(&self) -> ArgsView {
        ArgsView {
            user_data_partition: self.user_data_partition@,
            system_data_partition: self.system_data_partition@,
        }
    }
}

/// The value that `word` gives to `key`: what stands behind the first
/// `=` of the word, where what stands before it is `key`. A word
/// without `=` gives no value to any key.
pub open spec fn binding(word: Seq<char>, key: Seq<char>) -> Option<Seq<char>> {
    match split_once(word, '=') {
        Some((name, value)) => if name == key {
            Some(value)
        } else {
            None
        },
        None => None,
    }
}

/// The value that `words` give to `key`: that of the last word that
/// gives it one. A later word overrules an earlier one.
pub open spec fn lookup(words: Seq<Seq<char>>, key: Seq<char>) -> Option<Seq<char>>
    decreases words.len(),
{
    if words.len() == 0 {
        None
    } else {
        match binding(words.last(), key) {
            Some(value) => Some(value),
            None => lookup(words.drop_last(), key),
        }
    }
}

/// The value that the command line gives to `key`.
pub open spec fn argument(cmdline: Seq<char>, key: RequiredKey) -> Option<Seq<char>> {
    lookup(split_whitespace(cmdline), key.spec_name())
}

/// The boot arguments that a command line gives: the values of the two
/// required keys, or the error that names the key that is missing, the
/// system partition first where both are.
pub open spec fn spec_parse(cmdline: Seq<char>) -> Result<ArgsView, ErrorView> {
    match argument(cmdline, RequiredKey::SystemPartition) {
        None => Err(ErrorView::MissingKey { key: RequiredKey::SystemPartition }),
        Some(system) => match argument(cmdline, RequiredKey::UserPartition) {
            None => Err(ErrorView::MissingKey { key: RequiredKey::UserPartition }),
            Some(user) => Ok(
                ArgsView { user_data_partition: user, system_data_partition: system },
            ),
        },
    }
}

/// The partition UUID that a reference stands for: the reference
/// without the `UUID=` at its beginning.
pub open spec fn spec_bare_uuid(reference: Seq<char>) -> Seq<char> {
    strip_prefixes(reference, "UUID="@)
}

/// The value that the word under `span` gives to `key`, as a span.
fn binding_span(chars: &Vec<char>, span: Span, key: &Vec<char>) -> (r: Option<Span>)
    requires
        span.within(chars@.len()),
    ensures
        span_text(chars@, r) == binding(span.of(chars@), key@),
        r matches Some(value) ==> value.within(chars@.len()),
{
    let at = find_in_span(chars, span, '=');
    if at < span.end {
        let name = Span { start: span.start, end: at };
        proof {
            let word = span.of(chars@);
            let eq = find_char(word, '=', 0);
            assert(name.of(chars@) =~= word.take(eq));
            assert((Span { start: (at + 1) as usize, end: span.end }).of(chars@) =~= word.skip(
                eq + 1,
            ));
        }
        if span_equals(chars, name, key) {
            Some(Span { start: at + 1, end: span.end })
        } else {
            None
        }
    } else {
        None
    }
}

impl Args {
    /// Parses the kernel command line: words between whitespace, each
    /// split once at its first `=` into a key and a value. A word
    /// without `=` is passed over. Where a key stands more than once,
    /// its last value holds. Both `system_partition` and
    /// `user_partition` have to be there; the values are taken as they
    /// stand.
    pub fn parse(cmdline: &str) -> (r: Result<Args, Error>)
        ensures
            match r {
                Ok(args) => spec_parse(cmdline@) == Ok::<ArgsView, ErrorView>(args@),
                Err(e) => spec_parse(cmdline@) == Err::<ArgsView, ErrorView>(e@),
            },
    {
        let chars = chars_of(cmdline);
        let spans = word_spans(&chars);
        let system_key = chars_of(RequiredKey::SystemPartition.name());
        let user_key = chars_of(RequiredKey::UserPartition.name());
        let ghost words = split_whitespace(chars@);
        let mut system: Option<Span> = None;
        let mut user: Option<Span> = None;
        let mut i: usize = 0;
        assert(words.take(0) =~= Seq::<Seq<char>>::empty());
        while i < spans.len()
            invariant
                i <= spans@.len(),
                chars@ == cmdline@,
                words == split_whitespace(chars@),
                spans_of(chars@, spans@) == words,
                spans_within(spans@, chars@.len()),
                system_key@ == RequiredKey::SystemPartition.spec_name(),
                user_key@ == RequiredKey::UserPartition.spec_name(),
                system matches Some(span) ==> span.within(chars@.len()),
                user matches Some(span) ==> span.within(chars@.len()),
                span_text(chars@, system) == lookup(words.take(i as int), system_key@),
                span_text(chars@, user) == lookup(words.take(i as int), user_key@),
            decreases spans@.len() - i,
        {
            let span = spans[i];
            proof {
                assert(span.within(chars@.len()));
                assert(words[i as int] == span.of(chars@));
                assert(words.take(i + 1).drop_last() =~= words.take(i as int));
                assert(words.take(i + 1).last() == words[i as int]);
            }
            match binding_span(&chars, span, &system_key) {
                Some(value) => {
                    system = Some(value);
                },
                None => {},
            }
            match binding_span(&chars, span, &user_key) {
                Some(value) => {
                    user = Some(value);
                },
                None => {},
            }
            i += 1;
        }
        assert(words.take(i as int) =~= words);
        match system {
            None => Err(Error::MissingKey { key: RequiredKey::SystemPartition }),
            Some(system) => match user {
                None => Err(Error::MissingKey { key: RequiredKey::UserPartition }),
                Some(user) => Ok(
                    Args {
                        user_data_partition: cmdline.substring_char(user.start, user.end).to_string(),
                        system_data_partition: cmdline.substring_char(
                            system.start,
                            system.end,
                        ).to_string(),
                    },
                ),
            },
        }
    }

    /// The UUID of the system data partition, without `UUID=` before it.
    pub fn system_partition_uuid(&self) -> (r: String)
        ensures
            r@ == spec_bare_uuid(self@.system_data_partition),
    {
        without_prefixes(self.system_data_partition.as_str(), "UUID=")
    }

    /// The UUID of the user data partition, without `UUID=` before it.
    pub fn user_partition_uuid(&self) -> (r: String)
        ensures
            r@ == spec_bare_uuid(self@.user_data_partition),
    {
        without_prefixes(self.user_data_partition.as_str(), "UUID=")
    }
}

/// The last occurrence of a key wins: where a word gives `key` a value
/// and no word behind it does, the value of that word is the value of
/// the key, whatever the words before it say.
pub proof fn lemma_last_binding_wins(
    before: Seq<Seq<char>>,
    word: Seq<char>,
    behind: Seq<Seq<char>>,
    key: Seq<char>,
)
    requires
        binding(word, key) is Some,
        forall|i: int| 0 <= i < behind.len() ==> binding(#[trigger] behind[i], key) is None,
    ensures
        lookup(before + seq![word] + behind, key) == binding(word, key),
    decreases behind.len(),
{
    let all = before + seq![word] + behind;
    if behind.len() == 0 {
        assert(all.last() == word);
    } else {
        assert(all.last() == behind.last());
        assert(all.drop_last() =~= before + seq![word] + behind.drop_last());
        lemma_last_binding_wins(before, word, behind.drop_last(), key);
    }
}

/// A key that no word gives a value has none.
pub proof fn lemma_unbound_key(words: Seq<Seq<char>>, key: Seq<char>)
    ensures
        lookup(words, key) is None <==> forall|i: int|
            0 <= i < words.len() ==> binding(#[trigger] words[i], key) is None,
    decreases words.len(),
{
    if words.len() > 0 {
        lemma_unbound_key(words.drop_last(), key);
        if binding(words.last(), key) is None {
            if lookup(words.drop_last(), key) is None {
                assert forall|i: int| 0 <= i < words.len() implies binding(
                    #[trigger] words[i],
                    key,
                ) is None by {
                    if i < words.len() - 1 {
                        assert(words.drop_last()[i] == words[i]);
                    }
                }
            } else {
                let i = choose|i: int|
                    0 <= i < words.drop_last().len() && !(binding(
                        #[trigger] words.drop_last()[i],
                        key,
                    ) is None);
                assert(words[i] == words.drop_last()[i]);
            }
        } else {
            assert(words[words.len() - 1] == words.last());
        }
    }
}

/// Parsing succeeds exactly where the command line gives both required
/// keys a value, and the arguments are then those values, as they
/// stand; where it fails, the error names a key that has no value.
pub proof fn lemma_parse_outcome(cmdline: Seq<char>)
    ensures
        spec_parse(cmdline) is Ok <==> argument(cmdline, RequiredKey::SystemPartition) is Some
            && argument(cmdline, RequiredKey::UserPartition) is Some,
        spec_parse(cmdline) matches Ok(args) ==> Some(args.system_data_partition) == argument(
            cmdline,
            RequiredKey::SystemPartition,
        ) && Some(args.user_data_partition) == argument(cmdline, RequiredKey::UserPartition),
        spec_parse(cmdline) matches Err(e) ==> e matches ErrorView::MissingKey { key }
            && argument(cmdline, key) is None,
{
}

} // verus!

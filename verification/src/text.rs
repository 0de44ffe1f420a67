//! Message templates and the substitution of placeholders.
//!
//! A placeholder is a token `{name}`. A binding `(name, value)` replaces
//! every occurrence of the token by the value; a sequence of bindings is
//! applied one after the other, each to the text the previous one left.

use crate::chars::{to_chars, to_text};
use crate::conf::{config_error_text, lookup, Config, ConfigError};
use vstd::prelude::*;

verus! {

/// The token that stands for `name` in a template: the name in braces.
pub open spec fn token(name: Seq<char>) -> Seq<char> {
    seq!['{'] + name + seq!['}']
}

/// `text` with every occurrence of `pattern` replaced by `value`, the
/// occurrences taken from the left and never overlapping. What a
/// replacement inserts is not searched again.
pub open spec fn replaced(text: Seq<char>, pattern: Seq<char>, value: Seq<char>) -> Seq<char>
    recommends
        pattern.len() > 0,
    decreases text.len(),
{
    if text.len() == 0 || pattern.len() == 0 {
        text
    } else if pattern.is_prefix_of(text) {
        value + replaced(text.skip(pattern.len() as int), pattern, value)
    } else {
        seq![text[0]] + replaced(text.skip(1), pattern, value)
    }
}

/// `text` after the bindings have been applied in order, each to the
/// result of the one before.
pub open spec fn resolved(text: Seq<char>, bindings: Seq<(Seq<char>, Seq<char>)>) -> Seq<char>
    decreases bindings.len(),
{
    if bindings.len() == 0 {
        text
    } else {
        let (name, value) = bindings.last();
        replaced(resolved(text, bindings.drop_last()), token(name), value)
    }
}

/// The bindings as pairs of character sequences.
pub open spec fn pairs(bindings: Seq<(String, String)>) -> Seq<(Seq<char>, Seq<char>)> {
    bindings.map_values(|b: (String, String)| (b.0@, b.1@))
}

/// The texts as character sequences.
pub open spec fn texts(cells: Seq<String>) -> Seq<Seq<char>> {
    cells.map_values(|c: String| c@)
}

/// The bindings of one row: each column name with the cell below it, in
/// column order, for as many columns as both the header and the row have.
pub open spec fn paired(header: Seq<Seq<char>>, row: Seq<Seq<char>>) -> Seq<(Seq<char>, Seq<char>)> {
    Seq::new(
        if header.len() <= row.len() {
            header.len()
        } else {
            row.len()
        },
        |i: int| (header[i], row[i]),
    )
}

fn occurs_at(text: &Vec<char>, at: usize, pattern: &Vec<char>) -> (found: bool)
    requires
        at <= text.len(),
    ensures
        found == pattern@.is_prefix_of(text@.skip(at as int)),
{
    if pattern.len() > text.len() - at {
        return false;
    }
    let mut j: usize = 0;
    while j < pattern.len()
        invariant
            at <= text.len(),
            pattern.len() <= text.len() - at,
            j <= pattern.len(),
            forall|k: int| 0 <= k < j ==> pattern@[k] == text@[at + k],
        decreases pattern.len() - j,
    {
        if pattern[j] != text[at + j] {
            proof {
                let tail = text@.skip(at as int);
                assert(tail[j as int] == text@[at + j]);
                assert(tail.subrange(0, pattern@.len() as int)[j as int] != pattern@[j as int]);
            }
            return false;
        }
        j += 1;
    }
    proof {
        let tail = text@.skip(at as int);
        assert(tail.subrange(0, pattern@.len() as int) =~= pattern@);
    }
    true
}

fn replace_all(text: &Vec<char>, pattern: &Vec<char>, value: &Vec<char>) -> (out: Vec<char>)
    requires
        pattern@.len() > 0,
    ensures
        out@ == replaced(text@, pattern@, value@),
{
    let mut out: Vec<char> = Vec::new();
    let mut i: usize = 0;
    proof {
        assert(text@.skip(0) =~= text@);
        assert(out@ + replaced(text@, pattern@, value@) =~= replaced(text@, pattern@, value@));
    }
    while i < text.len()
        invariant
            i <= text.len(),
            pattern@.len() > 0,
            out@ + replaced(text@.skip(i as int), pattern@, value@) == replaced(
                text@,
                pattern@,
                value@,
            ),
        decreases text.len() - i,
    {
        let ghost tail = text@.skip(i as int);
        let ghost before = out@;
        if occurs_at(text, i, pattern) {
            let mut j: usize = 0;
            while j < value.len()
                invariant
                    j <= value.len(),
                    out@ == before + value@.take(j as int),
                decreases value.len() - j,
            {
                out.push(value[j]);
                j += 1;
            }
            i += pattern.len();
            proof {
                assert(value@.take(value@.len() as int) =~= value@);
                assert(tail.skip(pattern@.len() as int) =~= text@.skip(i as int));
                assert(out@ + replaced(text@.skip(i as int), pattern@, value@) =~= before
                    + replaced(tail, pattern@, value@));
            }
        } else {
            out.push(text[i]);
            i += 1;
            proof {
                assert(tail.skip(1) =~= text@.skip(i as int));
                assert(out@ + replaced(text@.skip(i as int), pattern@, value@) =~= before
                    + replaced(tail, pattern@, value@));
            }
        }
    }
    proof {
        assert(text@.skip(i as int) =~= Seq::<char>::empty());
        assert(out@ + Seq::<char>::empty() =~= out@);
    }
    out
}

fn token_chars(name: &str) -> (out: Vec<char>)
    ensures
        out@ == token(name@),
{
    let mut out: Vec<char> = Vec::new();
    out.push('{');
    let mut letters = to_chars(name);
    out.append(&mut letters);
    out.push('}');
    out
}

/// Replaces every occurrence of the token `{name}` in `text` by `value`.
pub fn substitute(text: &str, name: &str, value: &str) -> (out: String)
    ensures
        out@ == replaced(text@, token(name@), value@),
{
    let pattern = token_chars(name);
    let out = replace_all(&to_chars(text), &pattern, &to_chars(value));
    to_text(&out)
}

/// Resolves the placeholders of `text`: applies the bindings in order, each
/// to the text that the one before left. A placeholder that no binding
/// names stays as it is.
pub fn resolve(text: &str, bindings: &Vec<(String, String)>) -> (out: String)
    ensures
        out@ == resolved(text@, pairs(bindings@)),
        bindings@.len() == 0 ==> out@ == text@,
{
    let mut current = to_chars(text);
    let mut i: usize = 0;
    while i < bindings.len()
        invariant
            i <= bindings.len(),
            current@ == resolved(text@, pairs(bindings@).take(i as int)),
        decreases bindings.len() - i,
    {
        let pattern = token_chars(bindings[i].0.as_str());
        let value = to_chars(bindings[i].1.as_str());
        current = replace_all(&current, &pattern, &value);
        i += 1;
        proof {
            let done = pairs(bindings@).take(i as int);
            assert(done.drop_last() =~= pairs(bindings@).take(i - 1));
            assert(done.last() == (bindings@[i - 1].0@, bindings@[i - 1].1@));
        }
    }
    proof {
        assert(pairs(bindings@).take(i as int) =~= pairs(bindings@));
    }
    to_text(&current)
}

/// A mail: who sends it, who gets it, its subject line and its text.
#[derive(Debug, Clone)]
pub struct MailMessage {
    pub from: String,
    pub to: String,
    pub subject: String,
    pub content: String,
}

/// The four texts of a mail.
pub ghost struct MessageView {
    pub from: Seq<char>,
    pub to: Seq<char>,
    pub subject: Seq<char>,
    pub content: Seq<char>,
}

impl View for MailMessage {
    type V = MessageView;

    open spec fn view(&self) -> MessageView {
        MessageView {
            from: self.from@,
            to: self.to@,
            subject: self.subject@,
            content: self.content@,
        }
    }
}

/// The mail that `template` becomes under `bindings`: each of its four
/// texts resolved on its own, with the same bindings.
pub open spec fn filled(template: MessageView, bindings: Seq<(Seq<char>, Seq<char>)>) -> MessageView {
    MessageView {
        from: resolved(template.from, bindings),
        to: resolved(template.to, bindings),
        subject: resolved(template.subject, bindings),
        content: resolved(template.content, bindings),
    }
}

/// A mail whose four texts hold placeholders.
#[derive(Debug, Clone)]
pub struct MailTemplate {
    template: MailMessage,
}

impl View for MailTemplate {
    type V = MessageView;

    closed spec fn view(&self) -> MessageView {
        self.template@
    }
}

/// Why a template could not be read from a configuration.
pub enum TemplateError {
    External(ConfigError),
}

/// The keys under which a configuration holds the template's texts.
pub open spec fn template_keys() -> Seq<Seq<char>> {
    seq!["HEAD-FORMAT.FROM"@, "HEAD-FORMAT.TO"@, "HEAD-FORMAT.SUBJECT"@, "BODY-FORMAT"@]
}

/// The first of `keys` under which `root` holds no text, if there is one.
pub open spec fn first_missing(root: crate::conf::JsonModel, keys: Seq<Seq<char>>) -> Option<
    Seq<char>,
>
    decreases keys.len(),
{
    if keys.len() == 0 {
        None
    } else if lookup(root, keys[0]) is None {
        Some(keys[0])
    } else {
        first_missing(root, keys.drop_first())
    }
}

impl TemplateError {
    /// The sentence that reports this error.
    pub fn to_string(&self) -> (out: String)
        ensures
            out@ == config_error_text(self->External_0),
    {
        match self {
            TemplateError::External(x) => x.message(),
        }
    }
}

/// The bindings of one row: each column name of `header` with the cell of
/// `row` below it. Columns without a cell, and cells without a column, take
/// no part.
pub fn bindings(header: &Vec<String>, row: &Vec<String>) -> (out: Vec<(String, String)>)
    ensures
        pairs(out@) == paired(texts(header@), texts(row@)),
{
    let n: usize = if header.len() <= row.len() {
        header.len()
    } else {
        row.len()
    };
    let mut out: Vec<(String, String)> = Vec::new();
    let mut i: usize = 0;
    while i < n
        invariant
            i <= n,
            n <= header.len(),
            n <= row.len(),
            out@.len() == i,
            forall|k: int| 0 <= k < i ==> out@[k].0@ == header@[k]@ && out@[k].1@ == row@[k]@,
        decreases n - i,
    {
        out.push((header[i].clone(), row[i].clone()));
        i += 1;
    }
    proof {
        assert(pairs(out@) =~= paired(texts(header@), texts(row@)));
    }
    out
}

impl MailTemplate {
    /// The template whose texts are those of `template`.
    pub fn new(template: MailMessage) -> (out: MailTemplate)
        ensures
            out@ == template@,
    {
        MailTemplate { template }
    }

    /// Reads the template from `config`: sender, recipient and subject under
    /// `HEAD-FORMAT`, the text under `BODY-FORMAT`. The first of the four
    /// keys that is missing is the error.
    pub fn load(config: &Config) -> (r: Result<MailTemplate, TemplateError>)
        ensures
            match r {
                Ok(template) => {
                    &&& first_missing(config@, template_keys()) is None
                    &&& lookup(config@, "HEAD-FORMAT.FROM"@) == Some(template@.from)
                    &&& lookup(config@, "HEAD-FORMAT.TO"@) == Some(template@.to)
                    &&& lookup(config@, "HEAD-FORMAT.SUBJECT"@) == Some(template@.subject)
                    &&& lookup(config@, "BODY-FORMAT"@) == Some(template@.content)
                },
                Err(e) => e matches TemplateError::External(ConfigError::ConfigNoSuchKey(k))
                    && first_missing(config@, template_keys()) == Some(k@),
            },
    {
        proof {
            let keys = template_keys();
            assert(keys.drop_first() =~= seq![
                "HEAD-FORMAT.TO"@,
                "HEAD-FORMAT.SUBJECT"@,
                "BODY-FORMAT"@,
            ]);
            assert(keys.drop_first().drop_first() =~= seq!["HEAD-FORMAT.SUBJECT"@, "BODY-FORMAT"@]);
            assert(keys.drop_first().drop_first().drop_first() =~= seq!["BODY-FORMAT"@]);
            assert(keys.drop_first().drop_first().drop_first().drop_first() =~= Seq::<
                Seq<char>,
            >::empty());
            reveal_with_fuel(first_missing, 5);
        }
        let from = match config.get("HEAD-FORMAT.FROM") {
            Ok(text) => text,
            Err(e) => {
                return Err(TemplateError::External(e));
            },
        };
        let to = match config.get("HEAD-FORMAT.TO") {
            Ok(text) => text,
            Err(e) => {
                return Err(TemplateError::External(e));
            },
        };
        let subject = match config.get("HEAD-FORMAT.SUBJECT") {
            Ok(text) => text,
            Err(e) => {
                return Err(TemplateError::External(e));
            },
        };
        let content = match config.get("BODY-FORMAT") {
            Ok(text) => text,
            Err(e) => {
                return Err(TemplateError::External(e));
            },
        };
        Ok(MailTemplate { template: MailMessage { from, to, subject, content } })
    }

    /// The mail that the template becomes under the bindings `info`, applied
    /// in their order.
    pub fn fill(&self, info: Vec<(String, String)>) -> (out: MailMessage)
        ensures
            out@ == filled(self@, pairs(info@)),
            info@.len() == 0 ==> out@ == self@,
    {
        MailMessage {
            from: resolve(self.template.from.as_str(), &info),
            to: resolve(self.template.to.as_str(), &info),
            subject: resolve(self.template.subject.as_str(), &info),
            content: resolve(self.template.content.as_str(), &info),
        }
    }

    /// The mail for one row of a table under `header`.
    pub fn materialize(&self, header: &Vec<String>, row: &Vec<String>) -> (out: MailMessage)
        ensures
            out@ == filled(self@, paired(texts(header@), texts(row@))),
    {
        self.fill(bindings(header, row))
    }
}

/// Without bindings every text stays as it is.
pub proof fn lemma_resolved_without_bindings(text: Seq<char>)
    ensures
        resolved(text, Seq::empty()) == text,
{
}

/// A pattern that occurs nowhere in a text leaves the text as it is.
pub proof fn lemma_replaced_without_occurrence(
    text: Seq<char>,
    pattern: Seq<char>,
    value: Seq<char>,
)
    requires
        forall|i: int| 0 <= i <= text.len() ==> !pattern.is_prefix_of(#[trigger] text.skip(i)),
    ensures
        replaced(text, pattern, value) == text,
    decreases text.len(),
{
    assert(text.skip(0) =~= text);
    if text.len() > 0 && pattern.len() > 0 {
        let rest = text.skip(1);
        assert forall|i: int| 0 <= i <= rest.len() implies !pattern.is_prefix_of(
            #[trigger] rest.skip(i),
        ) by {
            assert(rest.skip(i) =~= text.skip(i + 1));
        }
        lemma_replaced_without_occurrence(rest, pattern, value);
        assert(seq![text[0]] + rest =~= text);
    }
}

/// A pattern that is the whole text is replaced by the value as it stands:
/// what the value holds is not searched, not even for the pattern itself.
pub proof fn lemma_value_not_rescanned(pattern: Seq<char>, value: Seq<char>)
    requires
        pattern.len() > 0,
    ensures
        replaced(pattern, pattern, value) == value,
{
    reveal_with_fuel(replaced, 2);
    assert(pattern.subrange(0, pattern.len() as int) =~= pattern);
    assert(pattern.skip(pattern.len() as int) =~= Seq::<char>::empty());
    assert(value + Seq::<char>::empty() =~= value);
}

/// Bindings run one after the other: resolving under `first` and then under
/// `then` is resolving under both in a row.
pub proof fn lemma_resolved_in_sequence(
    text: Seq<char>,
    first: Seq<(Seq<char>, Seq<char>)>,
    then: Seq<(Seq<char>, Seq<char>)>,
)
    ensures
        resolved(text, first + then) == resolved(resolved(text, first), then),
    decreases then.len(),
{
    if then.len() == 0 {
        assert(first + then =~= first);
    } else {
        lemma_resolved_in_sequence(text, first, then.drop_last());
        assert((first + then).drop_last() =~= first + then.drop_last());
        assert((first + then).last() == then.last());
    }
}

/// A value is not expanded by a binding that ran before it: where the text
/// is the token of `name` and the token of `earlier` does not occur in it,
/// the binding of `earlier` changes nothing and the result is `value` as it
/// stands, whether or not `value` holds the token of `earlier`.
pub proof fn lemma_earlier_binding_not_applied_again(
    name: Seq<char>,
    value: Seq<char>,
    earlier: Seq<char>,
    earlier_value: Seq<char>,
)
    requires
        forall|i: int|
            0 <= i <= token(name).len() ==> !token(earlier).is_prefix_of(
                #[trigger] token(name).skip(i),
            ),
    ensures
        resolved(token(name), seq![(earlier, earlier_value), (name, value)]) == value,
{
    let both = seq![(earlier, earlier_value), (name, value)];
    assert(both.drop_last() =~= seq![(earlier, earlier_value)]);
    assert(both.drop_last().drop_last() =~= Seq::<(Seq<char>, Seq<char>)>::empty());
    reveal_with_fuel(resolved, 3);
    lemma_replaced_without_occurrence(token(name), token(earlier), earlier_value);
    lemma_value_not_rescanned(token(name), value);
}

/// Columns that the row has no cell for, and cells that stand under no
/// column, leave the mail as it would be without them.
pub proof fn lemma_unpaired_columns_ignored(
    template: MessageView,
    header: Seq<Seq<char>>,
    row: Seq<Seq<char>>,
)
    ensures
        header.len() >= row.len() ==> filled(template, paired(header, row)) == filled(
            template,
            paired(header.take(row.len() as int), row),
        ),
        header.len() <= row.len() ==> filled(template, paired(header, row)) == filled(
            template,
            paired(header, row.take(header.len() as int)),
        ),
{
    if header.len() >= row.len() {
        assert(paired(header, row) =~= paired(header.take(row.len() as int), row));
    }
    if header.len() <= row.len() {
        assert(paired(header, row) =~= paired(header, row.take(header.len() as int)));
    }
}

} // verus!

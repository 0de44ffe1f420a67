use mail_merge::text::{bindings, resolve, substitute, MailMessage, MailTemplate};

fn pair(name: &str, value: &str) -> (String, String) {
    (name.to_string(), value.to_string())
}

fn strings(items: &[&str]) -> Vec<String> {
    items.iter().map(|s| s.to_string()).collect()
}

fn message(from: &str, to: &str, subject: &str, content: &str) -> MailMessage {
    MailMessage {
        from: from.to_string(),
        to: to.to_string(),
        subject: subject.to_string(),
        content: content.to_string(),
    }
}

/// What the standard library makes of the same bindings.
fn by_std(text: &str, info: &[(String, String)]) -> String {
    let mut out = text.to_string();
    for (name, value) in info {
        out = out.replace(&format!("{{{name}}}"), value);
    }
    out
}

#[test]
fn empty_bindings_leave_text_unchanged() {
    for text in ["", "plain", "{a}{b}", "{{}}", "ends with {", "日本語 {x}"] {
        assert_eq!(resolve(text, &vec![]), text);
    }
}

#[test]
fn unmatched_placeholder_stays() {
    assert_eq!(resolve("Hello {x}", &vec![]), "Hello {x}");
    assert_eq!(resolve("Hello {x}", &vec![pair("y", "1")]), "Hello {x}");
}

#[test]
fn basic_substitution() {
    assert_eq!(resolve("Hello {name}!", &vec![pair("name", "Ada")]), "Hello Ada!");
}

#[test]
fn substitution_is_sequential_not_recursive() {
    assert_eq!(resolve("{a}", &vec![pair("a", "{b}"), pair("b", "Z")]), "Z");
    assert_eq!(resolve("{a}", &vec![pair("b", "Z"), pair("a", "{b}")]), "{b}");
}

#[test]
fn inserted_value_is_not_rescanned_by_the_same_binding() {
    assert_eq!(resolve("{a}{a}", &vec![pair("a", "{a}x")]), "{a}x{a}x");
    assert_eq!(substitute("{a}", "a", "{a}{a}"), "{a}{a}");
}

#[test]
fn every_occurrence_is_replaced() {
    assert_eq!(substitute("{n}, {n} and {n}", "n", "x"), "x, x and x");
    assert_eq!(substitute("{n}{n}{n}", "n", ""), "");
}

#[test]
fn duplicate_names_run_in_order() {
    let info = vec![pair("a", "1"), pair("a", "2")];
    assert_eq!(resolve("{a}", &info), "1");
    let info = vec![pair("a", "{a}!"), pair("a", "2")];
    assert_eq!(resolve("{a}", &info), "2!");
}

#[test]
fn occurrences_are_taken_from_the_left() {
    // The token is "{{}" and the text "{{{}{{}": the first match starts at 1.
    assert_eq!(substitute("{{{}{{}", "{", "-"), "{--");
    assert_eq!(substitute("{}{}{", "", "ab"), "abab{");
}

#[test]
fn empty_name_and_braces_in_names() {
    assert_eq!(substitute("a{}b", "", "-"), "a-b");
    assert_eq!(substitute("a{x}y}b", "x}y", "-"), "a-b");
}

#[test]
fn resolve_agrees_with_std_replace() {
    let texts = [
        "",
        "{a}",
        "{a}{b}{a}",
        "x{a}y{b}z{c}",
        "{{a}}",
        "{a{a}}",
        "{{{}{{}",
        "aaa{a}aaa",
        "é{ü}日本{語}",
        "{",
        "}",
        "{a",
        "a}",
    ];
    let sets: Vec<Vec<(String, String)>> = vec![
        vec![],
        vec![pair("a", "1")],
        vec![pair("a", "{b}"), pair("b", "{a}")],
        vec![pair("b", "{a}"), pair("a", "{b}")],
        vec![pair("a", ""), pair("", "e")],
        vec![pair("{", "}"), pair("a", "{a}{a}")],
        vec![pair("ü", "ö"), pair("語", "{ü}")],
        vec![pair("a", "a"), pair("a", "b"), pair("c", "{a}")],
    ];
    for text in texts {
        for info in &sets {
            assert_eq!(resolve(text, info), by_std(text, info), "{text:?} under {info:?}");
        }
    }
}

#[test]
fn fill_resolves_each_field_with_the_same_bindings() {
    let template = MailTemplate::new(message(
        "{me} <{me}@example.org>",
        "{name} <{mail}>",
        "Hello {name}",
        "Dear {name},\nyour score is {score}.\n{me}",
    ));
    let mail = template.fill(vec![
        pair("me", "ada"),
        pair("name", "Bob"),
        pair("mail", "bob@example.com"),
        pair("score", "7"),
    ]);
    assert_eq!(mail.from, "ada <ada@example.org>");
    assert_eq!(mail.to, "Bob <bob@example.com>");
    assert_eq!(mail.subject, "Hello Bob");
    assert_eq!(mail.content, "Dear Bob,\nyour score is 7.\nada");
}

#[test]
fn fill_without_bindings_is_the_template() {
    let template = MailTemplate::new(message("{a}", "{b}", "{c}", "{d}"));
    let mail = template.fill(vec![]);
    assert_eq!(mail.from, "{a}");
    assert_eq!(mail.to, "{b}");
    assert_eq!(mail.subject, "{c}");
    assert_eq!(mail.content, "{d}");
}

#[test]
fn fill_does_not_change_the_template() {
    let template = MailTemplate::new(message("{a}", "{a}", "{a}", "{a}"));
    let first = template.fill(vec![pair("a", "1")]);
    let second = template.fill(vec![pair("a", "2")]);
    assert_eq!(first.subject, "1");
    assert_eq!(second.subject, "2");
}

#[test]
fn bindings_pair_columns_with_cells() {
    let out = bindings(&strings(&["a", "b"]), &strings(&["1", "2"]));
    assert_eq!(out, vec![pair("a", "1"), pair("b", "2")]);
}

#[test]
fn bindings_stop_at_the_shorter_side() {
    let out = bindings(&strings(&["a", "b", "c"]), &strings(&["1"]));
    assert_eq!(out, vec![pair("a", "1")]);
    let out = bindings(&strings(&["a"]), &strings(&["1", "2", "3"]));
    assert_eq!(out, vec![pair("a", "1")]);
    assert_eq!(bindings(&strings(&[]), &strings(&["1"])), vec![]);
    assert_eq!(bindings(&strings(&["a"]), &strings(&[])), vec![]);
}

#[test]
fn short_row_leaves_trailing_placeholders() {
    let template = MailTemplate::new(message("{from}", "{to}", "{subject}", "{a} {b} {c}"));
    let header = strings(&["from", "to", "a", "b", "c"]);
    let row = strings(&["me@x.org", "you@x.org", "1"]);
    let mail = template.materialize(&header, &row);
    assert_eq!(mail.from, "me@x.org");
    assert_eq!(mail.to, "you@x.org");
    assert_eq!(mail.subject, "{subject}");
    assert_eq!(mail.content, "1 {b} {c}");
    // The columns without a cell play no part at all.
    let short = template.materialize(&strings(&["from", "to", "a"]), &row);
    assert_eq!(short.content, mail.content);
    assert_eq!(short.from, mail.from);
}

#[test]
fn long_row_ignores_extra_cells() {
    let template = MailTemplate::new(message("f", "t", "{a}", "{a}{b}"));
    let mail = template.materialize(&strings(&["a"]), &strings(&["1", "2", "3"]));
    assert_eq!(mail.subject, "1");
    assert_eq!(mail.content, "1{b}");
}

#[test]
fn duplicate_columns_first_one_takes_the_token() {
    let template = MailTemplate::new(message("f", "t", "s", "{a}"));
    let mail = template.materialize(&strings(&["a", "a"]), &strings(&["1", "2"]));
    assert_eq!(mail.content, "1");
}

use mail_merge::pipeline::{
    accepts_extension, aggregate, conclude, farewell, progress, split_table, Action, Event,
    Outcome, Pipeline, Preflight, RunError, RunResult,
};
use mail_merge::text::{MailMessage, MailTemplate};

fn strings(items: &[&str]) -> Vec<String> {
    items.iter().map(|s| s.to_string()).collect()
}

fn template() -> MailTemplate {
    MailTemplate::new(MailMessage {
        from: "me@example.org".to_string(),
        to: "{mail}".to_string(),
        subject: "Hello {name}".to_string(),
        content: "Dear {name}, you owe {sum}.".to_string(),
    })
}

fn table(rows: usize) -> Vec<Vec<String>> {
    let mut out = vec![strings(&["name", "mail", "sum"])];
    for i in 1..=rows {
        out.push(vec![format!("N{i}"), format!("n{i}@example.com"), format!("{i}0")]);
    }
    out
}

/// Drives a run: the connection test gets `tested`, the i-th mail `replies[i]`.
/// Returns the recipients in the order sent, the lines shown, the result, and the run.
fn drive(
    run: &mut Pipeline,
    tested: Result<bool, String>,
    replies: &[Result<(), String>],
) -> (usize, Vec<String>, Vec<String>, Result<RunResult, RunError>) {
    let mut tests = 0;
    let mut sent = Vec::new();
    let mut lines = Vec::new();
    loop {
        let event = match run.action() {
            Action::TestConnection => {
                tests += 1;
                Event::ConnectionTested(tested.clone())
            }
            Action::Send(mail) => {
                sent.push(mail.to);
                Event::Sent(replies[sent.len() - 1].clone())
            }
            Action::Finish(result) => return (tests, sent, lines, result),
        };
        if let Some(line) = run.step(event) {
            lines.push(line);
        }
    }
}

#[test]
fn one_failure_does_not_block_the_rows_after_it() {
    let mut run = Pipeline::start(template(), table(3)).ok().expect("three data rows");
    let replies = [Ok(()), Err("relay said no".to_string()), Ok(())];
    let (tests, sent, lines, result) = drive(&mut run, Ok(true), &replies);
    assert_eq!(tests, 1);
    assert_eq!(sent, vec!["n1@example.com", "n2@example.com", "n3@example.com"]);
    assert_eq!(result, Ok(RunResult::PartialFailure));
    let outcomes = run.outcomes();
    assert_eq!(outcomes.len(), 3);
    assert!(matches!(outcomes[0], Outcome::Delivered));
    assert!(matches!(&outcomes[1], Outcome::Failed(reason) if reason == "relay said no"));
    assert!(matches!(outcomes[2], Outcome::Delivered));
    assert_eq!(lines, vec!["mail [1/3]", "relay said no", "mail [3/3]"]);
}

#[test]
fn all_deliveries_make_a_healthy_run() {
    for n in [1usize, 2, 5, 12] {
        let mut run = Pipeline::start(template(), table(n)).ok().expect("data rows");
        let replies = vec![Ok(()); n];
        let (tests, sent, lines, result) = drive(&mut run, Ok(true), &replies);
        assert_eq!(tests, 1);
        assert_eq!(sent.len(), n);
        assert_eq!(result, Ok(RunResult::AllHealthy));
        assert_eq!(lines.len(), n);
        assert_eq!(lines[n - 1], format!("mail [{n}/{n}]"));
        assert!(run.outcomes().iter().all(|o| matches!(o, Outcome::Delivered)));
    }
}

#[test]
fn all_failures_are_still_all_attempted() {
    let mut run = Pipeline::start(template(), table(4)).ok().expect("data rows");
    let replies: Vec<Result<(), String>> = (0..4).map(|i| Err(format!("no {i}"))).collect();
    let (_, sent, lines, result) = drive(&mut run, Ok(true), &replies);
    assert_eq!(sent.len(), 4);
    assert_eq!(result, Ok(RunResult::PartialFailure));
    assert_eq!(lines, vec!["no 0", "no 1", "no 2", "no 3"]);
}

#[test]
fn header_only_is_fatal_before_the_run() {
    assert!(matches!(Pipeline::start(template(), table(0)), Err(RunError::NoDataRows)));
    assert!(matches!(split_table(table(0)), Err(RunError::NoDataRows)));
}

#[test]
fn no_row_at_all_is_fatal_before_the_run() {
    assert!(matches!(Pipeline::start(template(), vec![]), Err(RunError::NoRows)));
    assert!(matches!(split_table(vec![]), Err(RunError::NoRows)));
}

#[test]
fn split_table_parts_header_and_rows() {
    let (header, rows) = split_table(table(2)).ok().expect("two data rows");
    assert_eq!(header, strings(&["name", "mail", "sum"]));
    assert_eq!(rows, vec![strings(&["N1", "n1@example.com", "10"]), strings(&["N2", "n2@example.com", "20"])]);
}

#[test]
fn failed_connection_test_sends_nothing() {
    for tested in [Ok(false), Err("no route to host".to_string())] {
        let mut run = Pipeline::start(template(), table(3)).ok().expect("data rows");
        let (tests, sent, lines, result) = drive(&mut run, tested.clone(), &[]);
        assert_eq!(tests, 1);
        assert!(sent.is_empty());
        assert_eq!(result, Err(RunError::ConnectionFailed));
        assert!(run.outcomes().is_empty());
        match tested {
            Ok(_) => assert!(lines.is_empty()),
            Err(reason) => assert_eq!(lines, vec![reason]),
        }
        // Nothing that arrives later lets a row through.
        assert_eq!(run.step(Event::ConnectionTested(Ok(true))), None);
        assert_eq!(run.step(Event::Sent(Ok(()))), None);
        assert!(matches!(run.action(), Action::Finish(Err(RunError::ConnectionFailed))));
        assert!(run.outcomes().is_empty());
    }
}

#[test]
fn replies_before_the_test_are_not_taken() {
    let mut run = Pipeline::start(template(), table(1)).ok().expect("data rows");
    assert_eq!(run.step(Event::Sent(Ok(()))), None);
    assert_eq!(run.step(Event::Sent(Err("early".to_string()))), None);
    assert!(run.outcomes().is_empty());
    assert!(matches!(run.action(), Action::TestConnection));
}

#[test]
fn events_after_the_end_change_nothing() {
    let mut run = Pipeline::start(template(), table(1)).ok().expect("data rows");
    let (_, _, _, result) = drive(&mut run, Ok(true), &[Ok(())]);
    assert_eq!(result, Ok(RunResult::AllHealthy));
    assert_eq!(run.step(Event::Sent(Err("late".to_string()))), None);
    assert_eq!(run.step(Event::ConnectionTested(Ok(false))), None);
    assert_eq!(run.outcomes().len(), 1);
    assert!(matches!(run.action(), Action::Finish(Ok(RunResult::AllHealthy))));
}

#[test]
fn each_mail_is_made_from_its_own_row() {
    let mut run = Pipeline::start(template(), table(2)).ok().expect("data rows");
    assert_eq!(run.step(Event::ConnectionTested(Ok(true))), None);
    match run.action() {
        Action::Send(mail) => {
            assert_eq!(mail.from, "me@example.org");
            assert_eq!(mail.to, "n1@example.com");
            assert_eq!(mail.subject, "Hello N1");
            assert_eq!(mail.content, "Dear N1, you owe 10.");
        }
        _ => panic!("the first row is due"),
    }
    // Asking again changes nothing.
    assert!(matches!(run.action(), Action::Send(mail) if mail.to == "n1@example.com"));
    assert_eq!(run.step(Event::Sent(Err("x".to_string()))), Some("x".to_string()));
    match run.action() {
        Action::Send(mail) => {
            assert_eq!(mail.subject, "Hello N2");
            assert_eq!(mail.content, "Dear N2, you owe 20.");
        }
        _ => panic!("the second row is due"),
    }
}

#[test]
fn a_run_over_no_rows_is_healthy() {
    let mut run = Pipeline::new(template(), strings(&["name"]), vec![]);
    let (tests, sent, lines, result) = drive(&mut run, Ok(true), &[]);
    assert_eq!(tests, 1);
    assert!(sent.is_empty());
    assert!(lines.is_empty());
    assert_eq!(result, Ok(RunResult::AllHealthy));
}

#[test]
fn aggregate_is_healthy_only_without_failure() {
    assert_eq!(aggregate(&vec![]), RunResult::AllHealthy);
    assert_eq!(aggregate(&vec![Outcome::Delivered, Outcome::Delivered]), RunResult::AllHealthy);
    assert_eq!(
        aggregate(&vec![Outcome::Delivered, Outcome::Failed("x".to_string()), Outcome::Delivered]),
        RunResult::PartialFailure
    );
    assert_eq!(aggregate(&vec![Outcome::Failed(String::new())]), RunResult::PartialFailure);
}

#[test]
fn progress_line() {
    assert_eq!(progress(1, 3), "mail [1/3]");
    assert_eq!(progress(10, 250), "mail [10/250]");
    assert_eq!(progress(0, 0), "mail [0/0]");
}

#[test]
fn preflight_values_differ() {
    assert_ne!(Preflight::Pending, Preflight::Passed);
    assert_ne!(Preflight::Passed, Preflight::Failed);
}

#[test]
fn conclude_turns_the_result_into_the_programs_outcome() {
    assert_eq!(conclude(Ok(RunResult::AllHealthy), "s", "w.xlsx"), Ok(()));
    assert_eq!(
        conclude(Ok(RunResult::PartialFailure), "s", "w.xlsx"),
        Err("There is at least one error, see above logs. ".to_string())
    );
    assert_eq!(
        conclude(Err(RunError::NoRows), "Sheet1", "dir/w.xlsx"),
        Err("\"Sheet1\" in \"dir/w.xlsx\" has 0 rows, which means it doesnt't even have a header!".to_string())
    );
    assert_eq!(
        conclude(Err(RunError::NoDataRows), "Sheet1", "w.xlsx"),
        Err("\"Sheet1\" in \"w.xlsx\" has a header and no rows below it, which means there is no mail to send!".to_string())
    );
    assert_eq!(
        conclude(Err(RunError::ConnectionFailed), "s", "w.xlsx"),
        Err("The mail service did not pass the connection test, no mail was sent. ".to_string())
    );
}

#[test]
fn farewell_lines() {
    assert_eq!(farewell(&Ok(())), "Mails all sent gracefully (*^_^*)");
    assert_eq!(farewell(&Err("it broke".to_string())), "===\nit broke ~~(ToT)~~\n===");
}

#[test]
fn workbook_extensions() {
    for e in ["xlsx", "xlsm", "xlsb", "xls"] {
        assert!(accepts_extension(Some(e)));
    }
    for e in ["", "csv", "XLSX", "xlsxx", "xl", "ods", ".xls"] {
        assert!(!accepts_extension(Some(e)));
    }
    assert!(!accepts_extension(None));
}

use dimport::envfile::save_token;
use dimport::model::{ChannelInfo, Export, GuildInfo, ImportOptions};
use dimport::options::{OptionError, ValueFlag};
use dimport::replay::{
    build_completion_message, cancel_notice, final_report, read_request, start_notice,
    CancellationFlags, ImportRequest, Replay, ReplayOutcome, ReplayStep, RequestError,
};

fn export(guild: &str, category: Option<&str>, channel: &str) -> Export {
    Export {
        guild: GuildInfo { name: guild.to_string() },
        channel: ChannelInfo {
            name: channel.to_string(),
            category: category.map(|c| c.to_string()),
        },
        messages: Vec::new(),
    }
}

/// Runs a replay of `total` messages; `raise_before` is the number of polls
/// after which the flag is found raised.
fn run(total: usize, raise_before: Option<usize>) -> (Vec<usize>, ReplayOutcome, usize) {
    let mut replay = Replay::new(total);
    let mut processed = Vec::new();
    let mut polls = 0;
    loop {
        let cancelled = raise_before.map_or(false, |k| polls >= k);
        polls += 1;
        match replay.step(cancelled) {
            ReplayStep::Process(i) => processed.push(i),
            ReplayStep::Finished(outcome) => return (processed, outcome, polls),
        }
    }
}

#[test]
fn a_request_names_export_media_and_options() {
    assert_eq!(
        read_request("export.json media --first 3 --button"),
        Ok(ImportRequest {
            json_path: "export.json".to_string(),
            media_path: Some("media".to_string()),
            options: ImportOptions { first: Some(3), button: true, ..ImportOptions::default() },
        })
    );
    assert_eq!(
        read_request("\"my export.json\" --outside"),
        Ok(ImportRequest {
            json_path: "my export.json".to_string(),
            media_path: None,
            options: ImportOptions { outside: true, ..ImportOptions::default() },
        })
    );
    assert_eq!(
        read_request("e.json"),
        Ok(ImportRequest {
            json_path: "e.json".to_string(),
            media_path: None,
            options: ImportOptions::default(),
        })
    );
    assert_eq!(
        read_request("e.json -media"),
        Ok(ImportRequest {
            json_path: "e.json".to_string(),
            media_path: Some("-media".to_string()),
            options: ImportOptions::default(),
        })
    );
}

#[test]
fn a_request_without_export_is_refused() {
    for args in ["", "   ", "\" \" media", "\"\t\""] {
        let r = read_request(args);
        assert_eq!(r, Err(RequestError::MissingPath), "{args:?}");
        assert_eq!(r.unwrap_err().message(), "Command requires a path to a JSON file.");
    }
}

#[test]
fn a_request_with_faulty_options_is_refused() {
    let r = read_request("e.json media --first");
    assert_eq!(r, Err(RequestError::Options(OptionError::MissingValue(ValueFlag::First))));
    assert_eq!(r.unwrap_err().message(), "Error parsing options: Missing value for --first");
    let r = read_request("e.json media extra");
    assert_eq!(r, Err(RequestError::Options(OptionError::Unknown("extra".to_string()))));
    assert_eq!(r.unwrap_err().message(), "Error parsing options: Unknown option: extra");
    let r = read_request("e.json --no-embed");
    assert_eq!(r, Err(RequestError::Options(OptionError::NoEmbedAlone)));
}

#[test]
fn the_start_notice_counts_the_messages() {
    assert_eq!(start_notice(0), "No messages to import.");
    assert_eq!(start_notice(1), "Importing 1 messages...");
    assert_eq!(start_notice(250), "Importing 250 messages...");
}

#[test]
fn the_completion_message_names_what_is_shown() {
    let e = export("Guild", Some("Chat"), "general");
    assert_eq!(
        build_completion_message(&e, false, false, false),
        "Successfully imported Guild | Chat | general"
    );
    assert_eq!(build_completion_message(&e, true, true, false), "Successfully imported general");
    assert_eq!(build_completion_message(&e, true, true, true), "Successfully imported");
}

#[test]
fn the_final_report_tells_cancellation_from_completion() {
    let e = export("Guild", None, "general");
    let o = ImportOptions { no_guild: true, ..ImportOptions::default() };
    assert_eq!(final_report(ReplayOutcome::Cancelled, &e, &o), "Import cancelled");
    assert_eq!(final_report(ReplayOutcome::Completed, &e, &o), "Successfully imported general");
}

#[test]
fn an_uncancelled_replay_walks_every_message_in_order() {
    assert_eq!(run(3, None), (vec![0, 1, 2], ReplayOutcome::Completed, 4));
    assert_eq!(run(0, None), (vec![], ReplayOutcome::Completed, 1));
    assert_eq!(run(1, None), (vec![0], ReplayOutcome::Completed, 2));
}

#[test]
fn a_cancellation_between_two_messages_stops_exactly_there() {
    for total in 2..8usize {
        for k in 0..total - 1 {
            // Raised after the poll for message k, before the poll for message k + 1.
            let (processed, outcome, _) = run(total, Some(k + 1));
            assert_eq!(processed, (0..=k).collect::<Vec<usize>>(), "{total} {k}");
            assert_eq!(outcome, ReplayOutcome::Cancelled);
        }
    }
    assert_eq!(run(5, Some(0)), (vec![], ReplayOutcome::Cancelled, 1));
}

#[test]
fn a_cancellation_after_the_last_message_comes_too_late() {
    assert_eq!(run(3, Some(3)), (vec![0, 1, 2], ReplayOutcome::Completed, 4));
    assert_eq!(run(0, Some(0)), (vec![], ReplayOutcome::Completed, 1));
}

#[test]
fn a_finished_replay_stays_finished() {
    let mut replay = Replay::new(2);
    assert!(replay.has_next());
    assert_eq!(replay.step(false), ReplayStep::Process(0));
    assert_eq!(replay.step(true), ReplayStep::Finished(ReplayOutcome::Cancelled));
    assert!(!replay.has_next());
    assert_eq!(replay.step(false), ReplayStep::Finished(ReplayOutcome::Cancelled));
    assert_eq!(replay.next, 1);
    let mut replay = Replay::new(1);
    assert_eq!(replay.step(false), ReplayStep::Process(0));
    assert!(!replay.has_next());
    assert_eq!(replay.step(false), ReplayStep::Finished(ReplayOutcome::Completed));
    assert_eq!(replay.step(true), ReplayStep::Finished(ReplayOutcome::Completed));
}

#[test]
fn cancellation_flags_follow_the_replay() {
    let mut flags = CancellationFlags::new();
    assert!(!flags.is_cancelled(1));
    assert!(!flags.request_cancel(1));
    assert!(!flags.is_cancelled(1));
    flags.begin(1);
    assert!(!flags.is_cancelled(1));
    assert!(flags.request_cancel(1));
    assert!(flags.is_cancelled(1));
    assert!(!flags.is_cancelled(2));
    assert!(!flags.request_cancel(2));
    flags.begin(1);
    assert!(!flags.is_cancelled(1));
    assert!(flags.request_cancel(1));
    flags.finish(1);
    assert!(!flags.is_cancelled(1));
    assert!(!flags.request_cancel(1));
    flags.finish(1);
}

#[test]
fn the_cancel_notice_says_whether_a_replay_was_found() {
    assert_eq!(cancel_notice(true), "Cancelling import...");
    assert_eq!(cancel_notice(false), "No ongoing import in this channel.");
}

#[test]
fn saving_a_token_writes_or_rewrites_its_line() {
    assert_eq!(save_token(None, "abc"), "DISCORD_TOKEN=abc\n");
    assert_eq!(save_token(Some(""), "abc"), "DISCORD_TOKEN=abc\n");
    assert_eq!(save_token(Some("A=1\nB=2"), "abc"), "A=1\nB=2\nDISCORD_TOKEN=abc\n");
    assert_eq!(
        save_token(Some("A=1\r\nDISCORD_TOKEN=old\r\nB=2\n"), "abc"),
        "A=1\nDISCORD_TOKEN=abc\nB=2\n"
    );
    assert_eq!(
        save_token(Some("DISCORD_TOKEN=x\nDISCORD_TOKEN=y"), "abc"),
        "DISCORD_TOKEN=abc\nDISCORD_TOKEN=abc\n"
    );
    assert_eq!(
        save_token(Some(" DISCORD_TOKEN=x\n\n\nlast\r"), "abc"),
        " DISCORD_TOKEN=x\n\n\nlast\r\nDISCORD_TOKEN=abc\n"
    );
}

#[test]
fn saving_a_token_agrees_with_line_by_line_rewriting() {
    let contents = [
        "", "\n", "\r\n", "a", "a\n", "a\r\n", "a\rb\n", "\n\na\n\n", "DISCORD_TOKEN=\n",
        "x\nDISCORD_TOKEN=1\r\ny", "DISCORD_TOKEN", "a\r", "\r", "a\n\r",
    ];
    for content in contents {
        let mut expected = String::new();
        let mut replaced = false;
        for line in content.lines() {
            if line.starts_with("DISCORD_TOKEN=") {
                expected.push_str("DISCORD_TOKEN=t\n");
                replaced = true;
            } else {
                expected.push_str(line);
                expected.push('\n');
            }
        }
        if !replaced {
            expected.push_str("DISCORD_TOKEN=t\n");
        }
        assert_eq!(save_token(Some(content), "t"), expected, "{content:?}");
    }
}

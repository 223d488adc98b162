use dev_workspaces::git::Git;
use dev_workspaces::git::GitCloneOptions;
use dev_workspaces::metrics::MetricsCounter;
use dev_workspaces::progress::fill;
use dev_workspaces::progress::held_millis;
use dev_workspaces::progress::hundredths;
use dev_workspaces::progress::message_widths;
use dev_workspaces::progress::Format;
use dev_workspaces::progress::Progress;
use dev_workspaces::progress::Throttle;
use dev_workspaces::shell::err_width;
use dev_workspaces::shell::Shell;
use dev_workspaces::shell::TtyWidth;
use dev_workspaces::text::append_repeated;
use dev_workspaces::text::decimal;
use dev_workspaces::text::digit_str;
use dev_workspaces::transfer::deltas_message;
use dev_workspaces::transfer::human_readable_bytes;
use dev_workspaces::transfer::rate_message;
use dev_workspaces::transfer::TransferReporter;
use dev_workspaces::transfer::TransferStats;
use dev_workspaces::GitCloneProtocol;
use dev_workspaces::GitCloneStrategy;
use dev_workspaces::GitConfig;
use dev_workspaces::GitHost;
use dev_workspaces::ProjectGitSettings;

const HALF_BAR: &str = "[===========>             ]  50.00%";

fn format() -> Format {
    Format { max_width: 80, max_print: 50 }
}

fn padded(line: &str) -> String {
    format!("{:<65}\r", line)
}

#[test]
fn bar_at_half() {
    assert_eq!(format().progress(5, 10), Some(HALF_BAR.to_string()));
    assert_eq!(HALF_BAR.len(), 35);
}

#[test]
fn bar_at_edges() {
    assert_eq!(format().progress(0, 10), Some("[                         ]   0.00%".to_string()));
    assert_eq!(format().progress(10, 10), Some("[=========================] 100.00%".to_string()));
    assert_eq!(format().progress(0, 0), Some("[                         ]   0.00%".to_string()));
    assert_eq!(format().progress(1, 25), Some("[>                        ]   4.00%".to_string()));
    assert_eq!(format().progress(1, 3), Some("[=======>                 ]  33.33%".to_string()));
    assert_eq!(format().progress(2, 3), Some("[===============>         ]  66.67%".to_string()));
    assert_eq!(format().progress(usize::MAX - 1, usize::MAX), Some("[=======================> ] 100.00%".to_string()));
}

#[test]
fn bar_needs_room() {
    assert_eq!(Format { max_width: 24, max_print: 50 }.progress(1, 2), None);
    assert_eq!(Format { max_width: 80, max_print: 24 }.progress(1, 2), None);
    assert_eq!(Format { max_width: 25, max_print: 50 }.progress(1, 2), Some("[]  50.00%".to_string()));
    assert_eq!(Format { max_width: 27, max_print: 50 }.progress(1, 2), Some("[> ]  50.00%".to_string()));
    assert_eq!(Format { max_width: 80, max_print: 50 }.width(), 50);
    assert_eq!(Format { max_width: 30, max_print: 50 }.width(), 30);
}

#[test]
fn fill_is_share_of_width_rounded_down() {
    assert_eq!(fill(25, 5, 10), 12);
    assert_eq!(fill(25, 0, 10), 0);
    assert_eq!(fill(25, 10, 10), 25);
    assert_eq!(fill(25, 3, 0), 0);
    assert_eq!(fill(49, 1, 49), 1);
    assert_eq!(fill(usize::MAX, usize::MAX, usize::MAX), usize::MAX);
}

#[test]
fn fill_grows_with_items_done() {
    for max in [1usize, 7, 25, 49, 1000] {
        let mut last = 0;
        for cur in 0..=max {
            let now = fill(25, cur, max);
            assert!(now >= last);
            assert!(now <= 25);
            last = now;
        }
        assert_eq!(last, 25);
    }
}

#[test]
fn hundredths_round_to_nearest() {
    assert_eq!(hundredths(1, 3), 3333);
    assert_eq!(hundredths(2, 3), 6667);
    assert_eq!(hundredths(1, 800), 13);
    assert_eq!(hundredths(0, 0), 0);
    assert_eq!(hundredths(7, 7), 10000);
}

#[test]
fn render_appends_message_that_fits() {
    let mut line = HALF_BAR.to_string();
    format().render(&mut line, ", 1.50KiB/s");
    assert_eq!(line, format!("{}, 1.50KiB/s", HALF_BAR));
    let mut line = HALF_BAR.to_string();
    format().render(&mut line, &"a".repeat(30));
    assert_eq!(line, format!("{}{}", HALF_BAR, "a".repeat(30)));
    let mut line = HALF_BAR.to_string();
    format().render(&mut line, "");
    assert_eq!(line, HALF_BAR);
}

#[test]
fn render_cuts_long_message_with_ellipsis() {
    let mut line = HALF_BAR.to_string();
    format().render(&mut line, &"a".repeat(31));
    assert_eq!(line, format!("{}{}...", HALF_BAR, "a".repeat(27)));
    assert_eq!(line.len(), 65);
}

#[test]
fn render_counts_wide_characters_double() {
    let mut line = HALF_BAR.to_string();
    format().render(&mut line, &"\u{4e16}".repeat(15));
    assert_eq!(line, format!("{}{}", HALF_BAR, "\u{4e16}".repeat(15)));
    let mut line = HALF_BAR.to_string();
    format().render(&mut line, &"\u{4e16}".repeat(16));
    assert_eq!(line, format!("{}{}...", HALF_BAR, "\u{4e16}".repeat(13)));
}

#[test]
fn render_gives_control_characters_no_column() {
    let mut line = HALF_BAR.to_string();
    let msg = format!("{}{}", "\u{7}".repeat(40), "a".repeat(30));
    format().render(&mut line, &msg);
    assert_eq!(line, format!("{}{}", HALF_BAR, msg));
}

#[test]
fn render_drops_message_without_room() {
    let narrow = Format { max_width: 53, max_print: 50 };
    let mut line = HALF_BAR.to_string();
    narrow.render(&mut line, "message");
    assert_eq!(line, HALF_BAR);
    let narrow = Format { max_width: 54, max_print: 50 };
    let mut line = HALF_BAR.to_string();
    narrow.render(&mut line, "abcd");
    assert_eq!(line, format!("{}abcd", HALF_BAR));
    let mut line = HALF_BAR.to_string();
    narrow.render(&mut line, "abcde");
    assert_eq!(line, format!("{}a...", HALF_BAR));
    let mut line = HALF_BAR.to_string();
    narrow.render(&mut line, "\u{4e16}\u{4e16}\u{4e16}");
    assert_eq!(line, format!("{}...", HALF_BAR));
}

#[test]
fn render_with_given_widths() {
    let narrow = Format { max_width: 54, max_print: 50 };
    let mut line = HALF_BAR.to_string();
    narrow.render_with(&mut line, "abc", &vec![2, 1, 2]);
    assert_eq!(line, format!("{}...", HALF_BAR));
    let mut line = HALF_BAR.to_string();
    narrow.render_with(&mut line, "abc", &vec![1, 1, 2]);
    assert_eq!(line, format!("{}abc", HALF_BAR));
    let mut line = HALF_BAR.to_string();
    narrow.render_with(&mut line, "abc", &vec![1, 0, 4]);
    assert_eq!(line, format!("{}ab...", HALF_BAR));
    let mut line = HALF_BAR.to_string();
    narrow.render_with(&mut line, "abc", &vec![0, 0, 0]);
    assert_eq!(line, format!("{}abc", HALF_BAR));
    assert_eq!(message_widths("a\u{4e16}\u{7}"), vec![1, 2, 0]);
}

#[test]
fn throttle_holds_first_line_for_warm_up() {
    let mut throttle = Throttle::new(0);
    assert!(!throttle.allowed(0));
    assert!(!throttle.allowed(499));
    assert_eq!(throttle, Throttle { first: true, last_update: 0 });
    assert!(throttle.allowed(500));
    assert_eq!(throttle, Throttle { first: false, last_update: 500 });
    assert!(!throttle.allowed(599));
    assert!(!throttle.allowed(400));
    assert!(throttle.allowed(600));
    assert_eq!(throttle.last_update, 600);
    throttle.update(1000);
    assert!(!throttle.allowed(1099));
    assert!(throttle.allowed(1100));
}

#[test]
fn reporter_draws_after_warm_up() {
    let mut progress = Progress::new("Fetch");
    assert_eq!(progress.state.name, "Fetch");
    assert_eq!(progress.tick_at(100, 1, 10, ", msg"), None);
    assert_eq!(progress.tick_at(499, 2, 10, ", msg"), None);
    let drawn = progress.tick_at(500, 5, 10, ", msg").unwrap();
    assert_eq!(drawn.header, None);
    assert_eq!(drawn.line, padded(&format!("{}, msg", HALF_BAR)));
    assert_eq!(drawn.line.len(), 66);
    assert!(progress.state.shell.needs_clear);
    assert_eq!(progress.state.last_line, Some(format!("{:<65}", format!("{}, msg", HALF_BAR))));
}

#[test]
fn reporter_never_draws_twice_within_interval() {
    let mut progress = Progress::new("Fetch");
    let mut drawn_at = Vec::new();
    for now in (0..3000u64).step_by(7) {
        let cur = (now / 7) as usize;
        if progress.tick_at(now, cur, 1000, ", msg").is_some() {
            drawn_at.push(now);
        }
    }
    assert!(drawn_at.len() > 10);
    assert!(drawn_at[0] >= 500);
    for pair in drawn_at.windows(2) {
        assert!(pair[1] - pair[0] >= 100);
    }
}

#[test]
fn reporter_drops_samples_held_back() {
    let mut progress = Progress::new("Fetch");
    assert!(progress.tick_at(500, 1, 10, "").is_some());
    assert_eq!(progress.tick_at(550, 9, 10, ""), None);
    let drawn = progress.tick_at(600, 2, 10, "").unwrap();
    assert_eq!(drawn.line, padded("[====>                    ]  20.00%"));
}

#[test]
fn reporter_skips_line_drawn_last_on_clear_terminal() {
    let mut progress = Progress::new("Fetch");
    assert!(progress.tick_at(500, 5, 10, ", same").is_some());
    assert!(progress.state.shell.needs_clear);
    assert!(progress.tick_at(600, 5, 10, ", same").is_some());
    let reset = progress.state.shell.err_erase_line();
    assert_eq!(reset, "\x1B[K");
    assert!(progress.state.shell.is_cleared());
    assert_eq!(progress.tick_at(700, 5, 10, ", same"), None);
    assert_eq!(progress.state.throttle.last_update, 700);
    assert!(progress.state.shell.is_cleared());
    assert_eq!(progress.state.last_line, Some(format!("{:<65}", format!("{}, same", HALF_BAR))));
    assert!(progress.tick_at(800, 5, 10, ", other").is_some());
    assert!(progress.state.shell.needs_clear);
}

#[test]
fn reporter_takes_any_count_while_held_back() {
    let mut progress = Progress::new("Fetch");
    assert!(!progress.takes(100));
    assert_eq!(progress.tick_at(100, 11, 10, ""), None);
    assert!(progress.takes(500));
    assert!(progress.tick_at(500, 10, 10, "").is_some());
    assert!(!progress.takes(5000));
    assert_eq!(progress.tick_at(5000, 11, 10, ""), None);
}

#[test]
fn reporter_ignores_samples_once_done() {
    let mut progress = Progress::new("Fetch");
    let drawn = progress.tick_at(500, 10, 10, "").unwrap();
    assert_eq!(drawn.line, padded("[=========================] 100.00%"));
    assert!(progress.state.done);
    assert_eq!(progress.tick_at(1000, 3, 10, ", late"), None);
    assert_eq!(progress.tick_at(2000, 10, 10, ", late"), None);
    let mut progress = Progress::new("Fetch");
    assert!(progress.tick_at(500, 0, 0, "").is_some());
    assert!(!progress.state.done);
}

#[test]
fn reporter_with_quiet_shell_prints_header() {
    let mut progress = Progress::new("Fetch");
    progress.state.shell.quiet = true;
    let drawn = progress.tick_at(500, 5, 10, "").unwrap();
    assert_eq!(drawn.header, Some("==Fetch==\n".to_string()));
}

#[test]
fn reporter_reads_the_clock() {
    let mut progress = Progress::new("Fetch");
    assert!(progress.now() < 400);
    assert_eq!(progress.tick(1, 10, ""), None);
    assert!(progress.state.throttle.first);
    let mut now = progress.now();
    let mut last = now;
    while now < 520 {
        now = progress.now();
        assert!(now >= last);
        last = now;
    }
    assert!(now < 5000);
    assert!(progress.tick(1, 10, "").is_some());
    assert_eq!(progress.tick(2, 10, ""), None);
}

#[test]
fn millis_beyond_u64_are_held_at_its_end() {
    assert_eq!(held_millis(0), 0);
    assert_eq!(held_millis(520), 520);
    assert_eq!(held_millis(u64::MAX as u128), u64::MAX);
    assert_eq!(held_millis(u64::MAX as u128 + 1), u64::MAX);
    assert_eq!(held_millis(u128::MAX), u64::MAX);
}

#[test]
fn shell_keeps_clear_flag() {
    let mut shell = Shell::new();
    assert!(shell.is_cleared());
    shell.set_needs_clear(true);
    assert!(!shell.is_cleared());
    let output = shell.status_header("Fetch");
    assert_eq!(output.text, None);
    assert!(!output.erase_line);
    assert!(!shell.is_cleared());
    shell.quiet = true;
    let output = shell.status_header("Fetch");
    assert_eq!(output.text, Some("==Fetch==\n".to_string()));
    assert!(output.erase_line);
    assert!(shell.is_cleared());
    assert_eq!(shell.err_width(), TtyWidth::Known(80));
    assert_eq!(err_width().size(10), 80);
    assert_eq!(TtyWidth::Known(7).size(80), 7);
}

#[test]
fn counter_rate_over_ring() {
    let mut counter = MetricsCounter::<10>::new(0, 0);
    assert_eq!(counter.rate(), 0);
    counter.add(3000, 1000);
    assert_eq!(counter.rate(), 3000);
    counter.add(4000, 1500);
    assert_eq!(counter.rate(), 2666);
    for i in 0..8u64 {
        counter.add(4000 + 100 * (i as usize + 1), 1500 + 100 * (i + 1));
    }
    assert_eq!(counter.index, 0);
    assert_eq!(counter.rate(), (4800 - 3000) * 1000 / (2300 - 1000));
    counter.add(5000, 2400);
    assert_eq!(counter.rate(), 1000 * 1000 / 900);
}

#[test]
fn counter_rate_is_zero_without_time_or_growth() {
    let mut counter = MetricsCounter::<2>::new(100, 50);
    counter.add(200, 50);
    assert_eq!(counter.rate(), 0);
    counter.add(50, 60);
    counter.add(40, 70);
    assert_eq!(counter.rate(), 0);
    let mut counter = MetricsCounter::<1>::new(5, 5);
    counter.add(10, 10);
    assert_eq!(counter.rate(), 0);
    let mut counter = MetricsCounter::<2>::new(0, 0);
    counter.add(usize::MAX, 1);
    assert_eq!(counter.rate(), u64::MAX);
}

#[test]
fn bytes_in_largest_unit() {
    assert_eq!(human_readable_bytes(0), (0, "B"));
    assert_eq!(human_readable_bytes(1), (100, "B"));
    assert_eq!(human_readable_bytes(1023), (102300, "B"));
    assert_eq!(human_readable_bytes(1024), (100, "KiB"));
    assert_eq!(human_readable_bytes(1536), (150, "KiB"));
    assert_eq!(human_readable_bytes(1048575), (102400, "KiB"));
    assert_eq!(human_readable_bytes(1048576), (100, "MiB"));
    assert_eq!(human_readable_bytes(1 << 30), (100, "GiB"));
    assert_eq!(human_readable_bytes(1 << 40), (100, "TiB"));
    assert_eq!(human_readable_bytes(1 << 50), (100, "PiB"));
    assert_eq!(human_readable_bytes(1 << 60), (100, "EiB"));
    assert_eq!(human_readable_bytes(u64::MAX), (1600, "EiB"));
}

#[test]
fn messages_of_a_transfer() {
    assert_eq!(rate_message(1536), ", 1.50KiB/s");
    assert_eq!(rate_message(0), ", 0.00B/s");
    assert_eq!(rate_message(5 * 1024 * 1024 + 52429), ", 5.05MiB/s");
    assert_eq!(deltas_message(3, 10), ", (3/10) resolvings deltas");
    assert_eq!(deltas_message(0, 12345), ", (0/12345) resolvings deltas");
}

#[test]
fn transfer_reporter_names_rate_then_deltas() {
    let mut reporter = TransferReporter::new();
    let stats = |bytes: usize, objects: usize, deltas: usize| TransferStats {
        indexed_deltas: deltas,
        total_deltas: 40,
        received_bytes: bytes,
        indexed_objects: objects,
        total_objects: 10,
    };
    assert_eq!(reporter.on_transfer_at(300, stats(1000, 1, 0)), None);
    assert_eq!(reporter.last_update, 0);
    assert_eq!(reporter.on_transfer_at(301, stats(1000, 1, 0)), None);
    assert_eq!(reporter.last_update, 301);
    let drawn = reporter.on_transfer_at(1000, stats(4000, 5, 0)).unwrap();
    assert_eq!(reporter.last_update, 1000);
    assert_eq!(drawn.line, padded(&format!("{}, 3.91KiB/s", HALF_BAR)));
    let drawn = reporter.on_transfer_at(2000, stats(9000, 5, 7)).unwrap();
    assert_eq!(reporter.last_update, 1000);
    assert_eq!(drawn.line, padded(&format!("{}, (7/40) resolvings deltas", HALF_BAR)));
    assert_eq!(reporter.on_transfer(stats(9000, 5, 8)), None);
    reporter.begin_attempt_at(2500);
    assert_eq!(reporter.last_update, 2500);
    assert_eq!(reporter.counter.index, 0);
    assert_eq!(reporter.counter.rate(), 0);
    let drawn = reporter.on_transfer_at(3500, stats(2048, 5, 0)).unwrap();
    assert_eq!(drawn.line, padded(&format!("{}, 2.00KiB/s", HALF_BAR)));
}

#[test]
fn text_of_numbers() {
    assert_eq!(decimal(0), "0");
    assert_eq!(decimal(7), "7");
    assert_eq!(decimal(10), "10");
    assert_eq!(decimal(9075), "9075");
    assert_eq!(decimal(u64::MAX), "18446744073709551615");
    assert_eq!(digit_str(4), "4");
    let mut text = "x".to_string();
    append_repeated(&mut text, "=", 3);
    assert_eq!(text, "x===");
}

#[test]
fn urls_by_protocol() {
    let repo = "owner/name".to_string();
    let user = "alice".to_string();
    assert_eq!(GitHost::GitHub.to_url(&GitCloneProtocol::HTTPS, &repo, None), "https://github.com/owner/name.git");
    assert_eq!(GitHost::GitLab.to_url(&GitCloneProtocol::HTTPS, &repo, Some(&user)), "https://gitlab.com/owner/name.git");
    assert_eq!(GitHost::GitHub.to_url(&GitCloneProtocol::SSH, &repo, None), "git@github.com:owner/name.git");
    assert_eq!(GitHost::GitLab.to_url(&GitCloneProtocol::SSH, &repo, Some(&user)), "alice@gitlab.com:owner/name.git");
    assert_eq!(GitHost::GitHub.to_string(), "github.com");
    assert_eq!(GitHost::GitLab.to_string(), "gitlab.com");
    assert!(GitCloneStrategy::Worktree.is_worktree());
    assert!(!GitCloneStrategy::Branch.is_worktree());
}

#[test]
fn git_falls_back_to_defaults() {
    let open = ProjectGitSettings::new(
        "o/n".to_string(),
        GitConfig { clone_strategy: None, protocol: None, host: None },
    );
    let git = Git::new("/r/w/p".to_string(), open);
    assert_eq!(
        git,
        Git {
            path: "/r/w/p".to_string(),
            repo: "o/n".to_string(),
            host: GitHost::GitHub,
            clone_options: GitCloneOptions { strategy: GitCloneStrategy::Branch, protocol: GitCloneProtocol::HTTPS },
        }
    );
    assert_eq!(git.duplicate(), git);
    let request = git.clone_request();
    assert_eq!(request.create_dir, None);
    assert_eq!(request.directory, "/r/w/p");
    assert!(!request.bare);
    assert_eq!(request.url, "https://github.com/o/n.git");
}

#[test]
fn worktree_clone_goes_into_bare_subdirectory() {
    let set = ProjectGitSettings::new(
        "o/n".to_string(),
        GitConfig {
            clone_strategy: Some(GitCloneStrategy::Worktree),
            protocol: Some(GitCloneProtocol::SSH),
            host: Some(GitHost::GitLab),
        },
    );
    let git = Git::new("/r/w/p".to_string(), set);
    let request = git.clone_request();
    assert_eq!(request.create_dir, Some("/r/w/p".to_string()));
    assert_eq!(request.directory, "/r/w/p/.bare");
    assert!(request.bare);
    assert_eq!(request.url, "git@gitlab.com:o/n.git");
    assert_eq!(git.url_with_user(&"alice".to_string()), "alice@gitlab.com:o/n.git");
}

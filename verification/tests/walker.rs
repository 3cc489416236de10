use log_upload::protocol::{Action, Event, ExitReport, SourceFile};
use log_upload::walker::{make_progress_text, make_report_text, Run};

/// How the outside work on one file turns out.
#[derive(Clone)]
struct Fate {
    temp_dir: Result<String, String>,
    exit: Result<Option<i32>, String>,
    upload: Result<(), String>,
    delete: Result<(), String>,
}

fn good(temp_dir: &str) -> Fate {
    Fate { temp_dir: Ok(temp_dir.to_string()), exit: Ok(Some(0)), upload: Ok(()), delete: Ok(()) }
}

/// A stand-in for the driver and for everything it would touch.
struct Outside {
    listing: Result<Vec<SourceFile>, String>,
    fates: Vec<Fate>,
    current: usize,
    sources: Vec<String>,
    temp_dir: Option<String>,
    stored: Vec<(String, String, String)>,
    stdout: String,
    stderr: String,
    actions: Vec<Action>,
}

impl Outside {
    fn new(listing: Result<Vec<SourceFile>, String>, fates: Vec<Fate>) -> Outside {
        let sources = match &listing {
            Ok(files) => files.iter().map(|f| f.path.clone()).collect(),
            Err(_) => vec!["/var/log/app/kept.log".to_string()],
        };
        Outside {
            listing,
            fates,
            current: 0,
            sources,
            temp_dir: None,
            stored: Vec::new(),
            stdout: String::new(),
            stderr: String::new(),
            actions: Vec::new(),
        }
    }

    /// Performs `action`; `None` when the action ends the run.
    fn perform(&mut self, action: Action) -> Option<Event> {
        self.actions.push(action.clone());
        match action {
            Action::ShowUsage { text } => {
                self.stderr.push_str(&text);
                None
            }
            Action::Fail { detail } => {
                self.stderr.push_str(&detail);
                None
            }
            Action::Stop => None,
            Action::ListDirectory { .. } => Some(Event::Listed(self.listing.clone())),
            Action::Print { text } => {
                if text.starts_with("ok") || text.starts_with("fail") {
                    self.current += 1;
                }
                self.stdout.push_str(&text);
                Some(Event::Finished(Ok(())))
            }
            Action::AcquireTempDir => {
                assert_eq!(self.temp_dir, None);
                let answer = self.fates[self.current].temp_dir.clone();
                if let Ok(path) = &answer {
                    self.temp_dir = Some(path.clone());
                }
                Some(Event::TempDir(answer))
            }
            Action::Encrypt { .. } => {
                assert!(self.temp_dir.is_some());
                Some(Event::Exited(match self.fates[self.current].exit.clone() {
                    Ok(code) => Ok(ExitReport {
                        code,
                        detail: match code {
                            Some(code) => format!("exit status: {}", code),
                            None => "signal: 9".to_string(),
                        },
                    }),
                    Err(detail) => Err(detail),
                }))
            }
            Action::Upload { bucket, key, path } => {
                let answer = self.fates[self.current].upload.clone();
                if answer.is_ok() {
                    self.stored.push((bucket, key, path));
                }
                Some(Event::Finished(answer))
            }
            Action::DeleteSource { path } => {
                let answer = self.fates[self.current].delete.clone();
                if answer.is_ok() {
                    self.sources.retain(|s| *s != path);
                }
                Some(Event::Finished(answer))
            }
            Action::ReleaseTempDir => {
                assert!(self.temp_dir.is_some());
                self.temp_dir = None;
                Some(Event::Finished(Ok(())))
            }
        }
    }

    /// Runs the program to its end and hands back the action that ended it.
    fn run(&mut self, args: &[&str]) -> Action {
        let args: Vec<String> = args.iter().map(|a| a.to_string()).collect();
        let (mut run, mut action) = Run::start(&args);
        loop {
            let last = action.clone();
            match (run, self.perform(action)) {
                (Some(going), Some(event)) => {
                    let next = going.step(event);
                    run = next.0;
                    action = next.1;
                }
                (None, None) => return last,
                (run, event) => panic!("run {:?} and event {:?} after {:?}", run, event, last),
            }
        }
    }

    fn uploads_asked(&self) -> usize {
        self.actions.iter().filter(|a| matches!(a, Action::Upload { .. })).count()
    }

    fn deletions_asked(&self) -> usize {
        self.actions.iter().filter(|a| matches!(a, Action::DeleteSource { .. })).count()
    }
}

const ARGS: [&str; 9] = [
    "log-upload",
    "--s3-path",
    "logs/app/",
    "--log-dir",
    "/var/log/app",
    "--encrypt-key",
    "ops@example.org",
    "--signing-key",
    "0xDEADBEEF",
];

fn entry(name: &str) -> SourceFile {
    SourceFile { path: format!("/var/log/app/{}", name), name: name.to_string() }
}

fn three_files() -> Vec<SourceFile> {
    vec![entry("a.log"), entry("b.log"), entry("c.log")]
}

#[test]
fn progress_text_is_dash_path_colon() {
    assert_eq!(make_progress_text("/var/log/app/a.log"), "- /var/log/app/a.log: ");
    assert_eq!(make_progress_text(""), "- : ");
}

#[test]
fn report_text_is_ok_or_fail_with_detail() {
    assert_eq!(make_report_text(&Ok(())), "ok\n");
    assert_eq!(make_report_text(&Err("403".to_string())), "fail\n403\n");
    assert_eq!(make_report_text(&Err(String::new())), "fail\n\n");
}

#[test]
fn absent_flag_shows_usage_and_touches_nothing() {
    for at in [1, 3, 5, 7] {
        let mut args = ARGS.to_vec();
        let name = args[at][2..].to_string();
        args.drain(at..at + 2);
        let mut outside = Outside::new(Ok(three_files()), vec![good("/tmp/t"); 3]);
        let last = outside.run(&args);
        let banner = format!(
            "Usage: log-upload --s3-path bucket/prefix --log-dir path --encrypt-key keyid --signing-key keyid\nError: {} is required\n",
            name
        );
        assert_eq!(last, Action::ShowUsage { text: banner.clone() });
        assert_eq!(outside.actions.len(), 1);
        assert_eq!(outside.stderr, banner);
        assert_eq!(outside.stdout, "");
        assert_eq!(outside.sources.len(), 3);
        assert!(outside.stored.is_empty());
    }
}

#[test]
fn flag_without_value_shows_usage() {
    let mut outside = Outside::new(Ok(three_files()), vec![good("/tmp/t"); 3]);
    let last = outside.run(&ARGS[..8]);
    assert_eq!(
        last,
        Action::ShowUsage {
            text: "Usage: log-upload --s3-path bucket/prefix --log-dir path --encrypt-key keyid --signing-key keyid\nError: Expected a value after argument '--signing-key'\n".to_string()
        }
    );
    assert_eq!(outside.actions.len(), 1);
}

#[test]
fn empty_argument_list_shows_usage_without_a_command_name() {
    let mut outside = Outside::new(Ok(Vec::new()), Vec::new());
    let last = outside.run(&[]);
    assert_eq!(
        last,
        Action::ShowUsage {
            text: "Usage:  --s3-path bucket/prefix --log-dir path --encrypt-key keyid --signing-key keyid\nError: s3-path is required\n".to_string()
        }
    );
}

#[test]
fn run_begins_by_listing_the_log_directory() {
    let args: Vec<String> = ARGS.iter().map(|a| a.to_string()).collect();
    let (run, action) = Run::start(&args);
    assert!(run.is_some());
    assert_eq!(action, Action::ListDirectory { path: "/var/log/app".to_string() });
}

#[test]
fn unlistable_directory_is_fatal_before_any_file() {
    let mut outside =
        Outside::new(Err("No such file or directory".to_string()), vec![good("/tmp/t"); 3]);
    let last = outside.run(&ARGS);
    assert_eq!(last, Action::Fail { detail: "No such file or directory".to_string() });
    assert_eq!(
        outside.actions,
        vec![
            Action::ListDirectory { path: "/var/log/app".to_string() },
            Action::Fail { detail: "No such file or directory".to_string() },
        ]
    );
    assert_eq!(outside.uploads_asked(), 0);
    assert_eq!(outside.deletions_asked(), 0);
    assert_eq!(outside.stdout, "");
    assert_eq!(outside.stderr, "No such file or directory");
    assert_eq!(outside.sources, vec!["/var/log/app/kept.log".to_string()]);
}

#[test]
fn answer_to_something_else_than_the_listing_is_fatal() {
    let args: Vec<String> = ARGS.iter().map(|a| a.to_string()).collect();
    let (run, _) = Run::start(&args);
    let (run, action) = run.unwrap().step(Event::Finished(Ok(())));
    assert!(run.is_none());
    assert_eq!(action, Action::Fail { detail: "unexpected event".to_string() });
}

#[test]
fn empty_directory_stops_at_once() {
    let mut outside = Outside::new(Ok(Vec::new()), Vec::new());
    let last = outside.run(&ARGS);
    assert_eq!(last, Action::Stop);
    assert_eq!(
        outside.actions,
        vec![Action::ListDirectory { path: "/var/log/app".to_string() }, Action::Stop]
    );
    assert_eq!(outside.stdout, "");
}

#[test]
fn one_file_is_shipped_step_by_step() {
    let mut outside = Outside::new(Ok(vec![entry("a.log")]), vec![good("/tmp/log-upload.x1")]);
    let last = outside.run(&ARGS);
    assert_eq!(last, Action::Stop);
    let arguments: Vec<String> = [
        "--recipient",
        "ops@example.org",
        "--local-user",
        "0xDEADBEEF",
        "--encrypt",
        "--sign",
        "-o",
        "/tmp/log-upload.x1/a.log",
        "--batch",
        "--set-filename",
        "",
        "/var/log/app/a.log",
    ]
    .iter()
    .map(|a| a.to_string())
    .collect();
    assert_eq!(
        outside.actions,
        vec![
            Action::ListDirectory { path: "/var/log/app".to_string() },
            Action::Print { text: "- /var/log/app/a.log: ".to_string() },
            Action::AcquireTempDir,
            Action::Encrypt { program: "gpg".to_string(), arguments },
            Action::Upload {
                bucket: "logs".to_string(),
                key: "app/a.log".to_string(),
                path: "/tmp/log-upload.x1/a.log".to_string(),
            },
            Action::DeleteSource { path: "/var/log/app/a.log".to_string() },
            Action::ReleaseTempDir,
            Action::Print { text: "ok\n".to_string() },
            Action::Stop,
        ]
    );
}

#[test]
fn all_files_shipped_leave_the_directory_empty() {
    let fates = vec![good("/tmp/t1"), good("/tmp/t2"), good("/tmp/t3")];
    let mut outside = Outside::new(Ok(three_files()), fates);
    let last = outside.run(&ARGS);
    assert_eq!(last, Action::Stop);
    assert!(outside.sources.is_empty());
    assert_eq!(outside.deletions_asked(), 3);
    assert_eq!(
        outside.stdout,
        "- /var/log/app/a.log: ok\n- /var/log/app/b.log: ok\n- /var/log/app/c.log: ok\n"
    );
    assert_eq!(outside.stdout.matches("ok\n").count(), 3);
    assert_eq!(
        outside.stored,
        vec![
            ("logs".to_string(), "app/a.log".to_string(), "/tmp/t1/a.log".to_string()),
            ("logs".to_string(), "app/b.log".to_string(), "/tmp/t2/b.log".to_string()),
            ("logs".to_string(), "app/c.log".to_string(), "/tmp/t3/c.log".to_string()),
        ]
    );
    assert_eq!(outside.temp_dir, None);
    assert_eq!(outside.stderr, "");
}

#[test]
fn failed_upload_keeps_its_file_and_no_other() {
    let mut fates = vec![good("/tmp/t1"), good("/tmp/t2"), good("/tmp/t3")];
    fates[1].upload = Err("AccessDenied".to_string());
    let mut outside = Outside::new(Ok(three_files()), fates);
    let last = outside.run(&ARGS);
    assert_eq!(last, Action::Stop);
    assert_eq!(outside.sources, vec!["/var/log/app/b.log".to_string()]);
    assert_eq!(
        outside.stdout,
        "- /var/log/app/a.log: ok\n- /var/log/app/b.log: fail\nAccessDenied\n- /var/log/app/c.log: ok\n"
    );
    assert_eq!(outside.uploads_asked(), 3);
    assert_eq!(outside.deletions_asked(), 2);
    assert!(!outside
        .actions
        .contains(&Action::DeleteSource { path: "/var/log/app/b.log".to_string() }));
    assert_eq!(outside.stored.len(), 2);
    assert_eq!(outside.temp_dir, None);
}

#[test]
fn failed_encryption_asks_for_no_upload() {
    let mut fates = vec![good("/tmp/t1"), good("/tmp/t2"), good("/tmp/t3")];
    fates[0].exit = Ok(Some(2));
    fates[2].exit = Ok(None);
    let mut outside = Outside::new(Ok(three_files()), fates);
    let last = outside.run(&ARGS);
    assert_eq!(last, Action::Stop);
    assert_eq!(
        outside.sources,
        vec!["/var/log/app/a.log".to_string(), "/var/log/app/c.log".to_string()]
    );
    assert_eq!(outside.uploads_asked(), 1);
    assert_eq!(outside.deletions_asked(), 1);
    assert_eq!(
        outside.stored,
        vec![("logs".to_string(), "app/b.log".to_string(), "/tmp/t2/b.log".to_string())]
    );
    assert_eq!(
        outside.stdout,
        "- /var/log/app/a.log: fail\nexit status: 2\n- /var/log/app/b.log: ok\n- /var/log/app/c.log: fail\nsignal: 9\n"
    );
    assert_eq!(outside.temp_dir, None);
}

#[test]
fn program_that_cannot_be_run_fails_every_file() {
    let mut fates = vec![good("/tmp/t1"), good("/tmp/t2"), good("/tmp/t3")];
    for fate in fates.iter_mut() {
        fate.exit = Err("gpg: not found".to_string());
    }
    let mut outside = Outside::new(Ok(three_files()), fates);
    let last = outside.run(&ARGS);
    assert_eq!(last, Action::Stop);
    assert_eq!(outside.sources.len(), 3);
    assert_eq!(outside.uploads_asked(), 0);
    assert_eq!(outside.stdout.matches("fail\ngpg: not found\n").count(), 3);
    assert_eq!(outside.temp_dir, None);
}

#[test]
fn temporary_directory_is_released_on_every_path() {
    let mut fates =
        vec![good("/tmp/t1"), good("/tmp/t2"), good("/tmp/t3"), good("/tmp/t4"), good("/tmp/t5")];
    fates[1].exit = Ok(Some(1));
    fates[2].upload = Err("timeout".to_string());
    fates[3].delete = Err("permission denied".to_string());
    fates[4].temp_dir = Err("no space".to_string());
    let files =
        vec![entry("a.log"), entry("b.log"), entry("c.log"), entry("d.log"), entry("e.log")];
    let mut outside = Outside::new(Ok(files), fates);
    let last = outside.run(&ARGS);
    assert_eq!(last, Action::Stop);
    assert_eq!(outside.temp_dir, None);
    let acquired = outside.actions.iter().filter(|a| **a == Action::AcquireTempDir).count();
    let released = outside.actions.iter().filter(|a| **a == Action::ReleaseTempDir).count();
    assert_eq!(acquired, 5);
    assert_eq!(released, 4);
    assert_eq!(outside.sources.len(), 4);
    assert_eq!(
        outside.stdout,
        "- /var/log/app/a.log: ok\n- /var/log/app/b.log: fail\nexit status: 1\n- /var/log/app/c.log: fail\ntimeout\n- /var/log/app/d.log: fail\npermission denied\n- /var/log/app/e.log: fail\nno space\n"
    );
}

#[test]
fn failed_deletion_is_reported_and_the_upload_stays() {
    let mut fates = vec![good("/tmp/t1")];
    fates[0].delete = Err("permission denied".to_string());
    let mut outside = Outside::new(Ok(vec![entry("a.log")]), fates);
    let last = outside.run(&ARGS);
    assert_eq!(last, Action::Stop);
    assert_eq!(outside.sources, vec!["/var/log/app/a.log".to_string()]);
    assert_eq!(outside.stored.len(), 1);
    assert_eq!(outside.stdout, "- /var/log/app/a.log: fail\npermission denied\n");
}

#[test]
fn bucket_without_prefix_stores_under_the_bare_name() {
    let mut args = ARGS.to_vec();
    args[2] = "logs";
    let mut outside = Outside::new(Ok(vec![entry("a.log")]), vec![good("/tmp/t1")]);
    outside.run(&args);
    assert_eq!(
        outside.stored,
        vec![("logs".to_string(), "a.log".to_string(), "/tmp/t1/a.log".to_string())]
    );
}

#[test]
fn failed_printing_and_release_do_not_stop_the_run() {
    let args: Vec<String> = ARGS.iter().map(|a| a.to_string()).collect();
    let broken = || Event::Finished(Err("broken pipe".to_string()));
    let (run, _) = Run::start(&args);
    let (run, action) = run.unwrap().step(Event::Listed(Ok(vec![entry("a.log"), entry("b.log")])));
    assert_eq!(action, Action::Print { text: "- /var/log/app/a.log: ".to_string() });
    let (run, action) = run.unwrap().step(broken());
    assert_eq!(action, Action::AcquireTempDir);
    let (run, action) = run.unwrap().step(Event::TempDir(Ok("/tmp/t1".to_string())));
    assert!(matches!(action, Action::Encrypt { .. }));
    let (run, action) = run.unwrap().step(Event::Exited(Ok(ExitReport {
        code: Some(0),
        detail: "exit status: 0".to_string(),
    })));
    assert!(matches!(action, Action::Upload { .. }));
    let (run, action) = run.unwrap().step(Event::Finished(Ok(())));
    assert_eq!(action, Action::DeleteSource { path: "/var/log/app/a.log".to_string() });
    let (run, action) = run.unwrap().step(Event::Finished(Ok(())));
    assert_eq!(action, Action::ReleaseTempDir);
    let (run, action) = run.unwrap().step(broken());
    assert_eq!(action, Action::Print { text: "ok\n".to_string() });
    let (run, action) = run.unwrap().step(broken());
    assert_eq!(action, Action::Print { text: "- /var/log/app/b.log: ".to_string() });
    assert!(run.is_some());
}

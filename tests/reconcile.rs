use lazyarchbuild::{
    reconcile, FetchError, Mark, MarkList, Message, PackageStatus, PkgInfo, Reconciler, Response,
    WorkList,
};

fn status(repo: &str, name: &str, text: &str) -> PackageStatus {
    PackageStatus { repo: repo.to_string(), pkgname: name.to_string(), status: text.to_string() }
}

fn mark(name: &str, by: &str) -> Mark {
    Mark { name: name.to_string(), by: by.to_string(), comment: String::new() }
}

fn work(alias: &str, packages: &[&str]) -> WorkList {
    WorkList { alias: alias.to_string(), packages: packages.iter().map(|p| p.to_string()).collect() }
}

fn summary(records: &[PkgInfo]) -> Vec<(String, String, Vec<String>)> {
    records
        .iter()
        .map(|r| {
            (
                r.name().to_string(),
                r.assignee().to_string(),
                r.marks().iter().map(|m| m.to_string()).collect(),
            )
        })
        .collect()
}

fn sample_statuses() -> Vec<PackageStatus> {
    vec![
        status("core", "bear", "FTBFS: qemu timeout"),
        status("extra", "zlib", "Leaf package"),
        status("extra", "rust", "FTBFS"),
    ]
}

fn sample_feed() -> Response {
    Response {
        worklist: vec![work("rvalue", &["rust", "lldb"]), work("melon", &["lldb"])],
        marklist: vec![MarkList { name: "bear".to_string(), marks: vec![mark("failing", "Moody")] }],
    }
}

#[test]
fn end_to_end_marked_package_is_kept() {
    let statuses = vec![status("core", "bear", "FTBFS: qemu timeout")];
    let feed = Response {
        worklist: vec![],
        marklist: vec![MarkList { name: "bear".to_string(), marks: vec![mark("failing", "Moody")] }],
    };
    let out = reconcile(Message::Status(Ok(statuses)), Message::Assignment(Ok(feed))).unwrap();
    assert_eq!(out.len(), 1);
    let bear = &out[0];
    assert_eq!(bear.name(), "bear");
    assert!(!bear.has_assignee());
    assert_eq!(bear.assignee(), "");
    assert!(bear.has_marks());
    assert_eq!(bear.marks[0].name, "failing");
    assert_eq!(bear.marks[0].by, "Moody");
    assert_eq!(bear.marks[0].comment, "");
    assert!(!bear.has_process());
    assert!(!bear.is_rotten());
}

#[test]
fn arrival_order_does_not_matter() {
    let a = reconcile(Message::Status(Ok(sample_statuses())), Message::Assignment(Ok(sample_feed())))
        .unwrap();
    let b = reconcile(Message::Assignment(Ok(sample_feed())), Message::Status(Ok(sample_statuses())))
        .unwrap();
    assert_eq!(summary(&a), summary(&b));
}

#[test]
fn unclaimed_unmarked_packages_are_dropped_and_the_rest_sorted() {
    let out =
        reconcile(Message::Status(Ok(sample_statuses())), Message::Assignment(Ok(sample_feed())))
            .unwrap();
    let names: Vec<&str> = out.iter().map(|r| r.name()).collect();
    assert_eq!(names, vec!["bear", "lldb", "rust"]);
}

#[test]
fn last_claim_wins() {
    let out =
        reconcile(Message::Status(Ok(sample_statuses())), Message::Assignment(Ok(sample_feed())))
            .unwrap();
    assert_eq!(
        summary(&out),
        vec![
            ("bear".to_string(), String::new(), vec!["failing".to_string()]),
            ("lldb".to_string(), "melon".to_string(), vec![]),
            ("rust".to_string(), "rvalue".to_string(), vec![]),
        ]
    );
}

#[test]
fn later_mark_list_replaces_earlier() {
    let feed = Response {
        worklist: vec![],
        marklist: vec![
            MarkList { name: "bear".to_string(), marks: vec![mark("failing", "a")] },
            MarkList { name: "bear".to_string(), marks: vec![mark("noqemu", "b"), mark("stuck", "c")] },
        ],
    };
    let out = reconcile(Message::Assignment(Ok(feed)), Message::Status(Ok(vec![]))).unwrap();
    assert_eq!(summary(&out), vec![("bear".to_string(), String::new(), vec!["noqemu".to_string(), "stuck".to_string()])]);
}

#[test]
fn status_only_packages_give_no_records() {
    let feed = Response { worklist: vec![], marklist: vec![] };
    let out = reconcile(Message::Status(Ok(sample_statuses())), Message::Assignment(Ok(feed))).unwrap();
    assert!(out.is_empty());
}

#[test]
fn failed_status_fetch_fails_the_pass() {
    let out = reconcile(
        Message::Status(Err(FetchError::Transport)),
        Message::Assignment(Ok(sample_feed())),
    );
    assert!(matches!(out, Err(FetchError::Transport)));
    let out = reconcile(
        Message::Assignment(Ok(sample_feed())),
        Message::Status(Err(FetchError::Transport)),
    );
    assert!(matches!(out, Err(FetchError::Transport)));
}

#[test]
fn failed_assignment_fetch_fails_the_pass() {
    let out = reconcile(
        Message::Status(Ok(sample_statuses())),
        Message::Assignment(Err(FetchError::Decode)),
    );
    assert!(matches!(out, Err(FetchError::Decode)));
}

#[test]
fn first_failure_is_reported() {
    let out = reconcile(
        Message::Assignment(Err(FetchError::Decode)),
        Message::Status(Err(FetchError::MalformedRow)),
    );
    assert!(matches!(out, Err(FetchError::Decode)));
}

#[test]
fn pass_waits_for_both_sources() {
    let mut pass = Reconciler::new();
    assert!(!pass.is_done());
    let first = Message::Status(Err(FetchError::Transport));
    assert!(pass.expects(&first));
    pass.receive(first);
    assert!(!pass.is_done());
    let again = Message::Status(Ok(vec![]));
    assert!(!pass.expects(&again));
    let second = Message::Assignment(Ok(sample_feed()));
    assert!(pass.expects(&second));
    pass.receive(second);
    assert!(pass.is_done());
    assert!(matches!(pass.finish(), Err(FetchError::Transport)));
}

#[test]
fn record_accessors() {
    let mut r = PkgInfo::new("rust".to_string());
    assert_eq!(r.name(), "rust");
    assert_eq!(r.assignee(), "");
    assert_eq!(r.current_process(), "");
    assert!(!r.has_assignee() && !r.has_process() && !r.has_marks() && !r.is_rotten());
    r.assignee = Some("rvalue".to_string());
    r.process = Some("build".to_string());
    r.marks = vec![mark("failing", "a"), mark("stuck", "b")];
    assert_eq!(r.assignee(), "rvalue");
    assert_eq!(r.current_process(), "build");
    assert_eq!(r.marks(), vec!["failing", "stuck"]);
    assert!(r.has_assignee() && r.has_process() && r.has_marks());
}

#[test]
fn records_come_in_order_of_name() {
    let feed = Response {
        worklist: vec![work("a", &["zlib", "Zed", "apple"])],
        marklist: vec![MarkList { name: "bear".to_string(), marks: vec![mark("failing", "x")] }],
    };
    let out = reconcile(Message::Assignment(Ok(feed)), Message::Status(Ok(vec![]))).unwrap();
    let names: Vec<&str> = out.iter().map(|r| r.name()).collect();
    assert_eq!(names, vec!["Zed", "apple", "bear", "zlib"]);
}

#[test]
fn failures_describe_themselves() {
    assert_eq!(FetchError::Transport.describe(), "the request failed");
    assert_eq!(FetchError::Decode.describe(), "the assignment feed could not be decoded");
    assert_eq!(FetchError::MalformedRow.describe(), "a status page row has fewer than three cells");
}

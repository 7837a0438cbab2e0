use shanti::cli::Args;
use shanti::components::context::{AppContext, BackgroundWork, Modal, ModalFlow};
use shanti::components::notify::Notifications;
use shanti::components::pr_worktree::{git_clone_notice, Asked, Flow, PrWorktreeComponent};
use shanti::components::repositories::RepositoriesComponent;
use shanti::components::worktrees::WorktreesComponent;
use shanti::components::Action;
use shanti::github::{PrInfo, PrUrl};
use shanti::jobs::JobKind;
use shanti::space_meta::SpaceMeta;
use shanti::theme::Theme;

fn a_flow() -> Flow {
    Flow {
        auto: false,
        typed: "https://github.com/acme/widget/pull/7".to_string(),
    }
}

fn a_url() -> PrUrl {
    PrUrl {
        owner: "acme".to_string(),
        repo: "widget".to_string(),
        number: 7,
    }
}

fn an_info() -> PrInfo {
    PrInfo {
        branch_name: "feature-from-pr".to_string(),
        is_merged: false,
    }
}

fn a_context() -> AppContext {
    AppContext {
        worktrees: WorktreesComponent::new(Vec::new()),
        repositories: RepositoriesComponent::new(Vec::new()),
        notify: Notifications::default(),
        args: Args::for_dirs("/tmp/spaces".to_string(), vec!["/tmp/repos".to_string()]),
        meta: SpaceMeta::in_memory(),
        background: Vec::new(),
        effects: Vec::new(),
        now: 0,
    }
}

fn status_of(prompt: &PrWorktreeComponent) -> String {
    prompt
        .prompt(&Theme::tokyo_night())
        .status
        .expect("the status row always says something")
        .0
}

#[test]
fn choosing_a_destination_starts_a_clone_job_and_says_so() {
    let mut ctx = a_context();
    let next = ctx.clone_into("/tmp/repos".to_string(), a_url(), an_info(), a_flow());

    let raised = ctx.background.pop().expect("the clone must have been raised");
    let BackgroundWork::Routed { job, .. } = raised else {
        panic!("cloning should raise routed work, not an abandon");
    };
    assert_eq!(job.kind(), JobKind::CloneRepository);

    let ModalFlow::Replace(Modal::PrWorktree(mut prompt)) = next else {
        panic!("the picker should be replaced by something that waits");
    };
    let first = status_of(&prompt);
    assert!(
        first.contains("Cloning acme/widget into /tmp/repos"),
        "the wait must name the clone it is waiting on:\n{first}"
    );
    let area = shanti::screen::Rect {
        x: 0,
        y: 0,
        width: 80,
        height: 9,
    };
    prompt.draw(area, &Theme::tokyo_night());
    assert_ne!(first, status_of(&prompt), "the spinner must turn");
}

#[test]
fn a_silent_auto_clone_announces_the_git_clone_and_the_jj_escape_hatch() {
    let notice = git_clone_notice(&a_url(), true, &vec!["/tmp/repos".to_string()])
        .expect("the silent path must say something");
    assert!(
        notice.contains("widget") && notice.contains("git"),
        "the notice must name the repository and that git was used:\n{notice}"
    );
    assert!(
        notice.contains("jj git init --colocate"),
        "the notice must tell a jj user how to colocate:\n{notice}"
    );
}

#[test]
fn the_paths_that_prompt_stay_silent_afterwards() {
    // Not auto: the confirm dialog was shown.
    assert!(git_clone_notice(&a_url(), false, &vec!["/tmp/repos".to_string()]).is_none());
    // Auto but several dirs: the picker was shown.
    assert!(git_clone_notice(
        &a_url(),
        true,
        &vec!["/tmp/one".to_string(), "/tmp/two".to_string()],
    )
    .is_none());
}

#[test]
fn escaping_a_wait_asks_the_loop_to_abandon_the_job() {
    let mut modal = Modal::PrWorktree(PrWorktreeComponent::waiting(
        a_flow(),
        "Cloning acme/widget".to_string(),
    ));
    let mut ctx = a_context();

    assert!(matches!(
        modal.handle(Action::ClosePopup, &mut ctx),
        ModalFlow::Close
    ));
    assert!(matches!(
        ctx.background.pop(),
        Some(BackgroundWork::Abandon)
    ));
}

#[test]
fn a_waiting_prompt_takes_no_key() {
    let mut prompt = PrWorktreeComponent::waiting(a_flow(), "Cloning".to_string());
    assert_eq!(prompt.handle(Action::InsertChar('x')), Asked::Consumed);
    assert_eq!(prompt.handle(Action::DeleteChar), Asked::Consumed);
    assert_eq!(prompt.handle(Action::Select), Asked::Consumed);
    assert_eq!(prompt.input, a_flow().typed);
}

#[test]
fn a_url_is_looked_up_and_a_wrong_one_is_explained() {
    let mut prompt = PrWorktreeComponent::new(false);
    for c in "https://github.com/acme/widget/pull/7".chars() {
        prompt.handle(Action::InsertChar(c));
    }
    let asked = prompt.handle(Action::Select);
    assert_eq!(
        asked,
        Asked::Lookup {
            url: a_url(),
            flow: a_flow()
        }
    );
    assert!(status_of(&prompt).contains("Looking up acme/widget #7"));

    let mut wrong = PrWorktreeComponent::new(true);
    wrong.handle(Action::InsertChar('x'));
    assert_eq!(wrong.handle(Action::Select), Asked::Consumed);
    let reason = wrong.error.clone().expect("the reason is shown");
    assert_eq!(status_of(&wrong), reason);
    wrong.handle(Action::DeleteChar);
    assert_eq!(wrong.error, None, "an edit takes the reason away");
    assert_eq!(status_of(&wrong), "github.com/owner/repo/pull/123");
}

//! What holds of every status that is shown.
use crate::control::service_flow::{status_checks, status_head, status_report, status_tail};
use crate::os_text::display_text;
use crate::service::commands::{command_line_text, inspection, ServiceCommandView};
use crate::service::status::ServiceStatusView;
use crate::service::{ServicePlatform, ServiceScope, ServiceSpecView};
use crate::text_laws::{keyed, lemma_other_key, lemma_says, says, starts_text};
use vstd::prelude::*;
use vstd::string::*;

verus! {

/// The keys that a status may show before the commands for a closer look.
pub open spec fn status_keys() -> Seq<Seq<char>> {
    seq![
        "platform"@,
        "scope"@,
        "definition"@,
        "definition_present"@,
        "bin"@,
        "exec_bin"@,
        "config"@,
        "config_error"@,
        "root_dir"@,
        "run_dir"@,
        "state_dir"@,
        "log_dir"@,
        "running"@,
        "logs"@,
    ]
}

proof fn lemma_status_keys()
    ensures
        status_keys().len() == 14,
        forall|i: int|
            0 <= i < 14 ==> !(#[trigger] status_keys()[i]).contains('=') && status_keys()[i]
                != "check"@,
        !"check"@.contains('='),
        forall|i: int, j: int|
            0 <= i < j < 14 ==> #[trigger] status_keys()[i] != #[trigger] status_keys()[j],
{
    reveal_strlit("check");
    let keys = status_keys();
    assert forall|i: int, j: int|
        0 <= i < j < 14 implies #[trigger] keys[i] != #[trigger] keys[j] by {
        lemma_status_key_codes(i);
        lemma_status_key_codes(j);
    }
    assert forall|i: int| 0 <= i < 14 implies !(#[trigger] keys[i]).contains('=') && keys[i]
        != "check"@ by {
        lemma_status_key_codes(i);
    }
}

/// By what a key is told from the others: its length, its first and its last
/// character.
spec fn key_code(key: Seq<char>) -> (nat, char, char) {
    (key.len(), key[0], key.last())
}

#[verifier::rlimit(30)]
proof fn lemma_status_key_codes(i: int)
    requires
        0 <= i < 14,
    ensures
        key_code(status_keys()[i]) == (
        if i == 0 {
            (8nat, 'p', 'm')
        } else if i == 1 {
            (5nat, 's', 'e')
        } else if i == 2 {
            (10nat, 'd', 'n')
        } else if i == 3 {
            (18nat, 'd', 't')
        } else if i == 4 {
            (3nat, 'b', 'n')
        } else if i == 5 {
            (8nat, 'e', 'n')
        } else if i == 6 {
            (6nat, 'c', 'g')
        } else if i == 7 {
            (12nat, 'c', 'r')
        } else if i == 8 {
            (8nat, 'r', 'r')
        } else if i == 9 {
            (7nat, 'r', 'r')
        } else if i == 10 {
            (9nat, 's', 'r')
        } else if i == 11 {
            (7nat, 'l', 'r')
        } else if i == 12 {
            (7nat, 'r', 'g')
        } else {
            (4nat, 'l', 's')
        }),
        key_code("check"@) == (5nat, 'c', 'k'),
        !status_keys()[i].contains('='),
{
    reveal_strlit("platform");
    reveal_strlit("scope");
    reveal_strlit("definition");
    reveal_strlit("definition_present");
    reveal_strlit("bin");
    reveal_strlit("exec_bin");
    reveal_strlit("config");
    reveal_strlit("config_error");
    reveal_strlit("root_dir");
    reveal_strlit("run_dir");
    reveal_strlit("state_dir");
    reveal_strlit("log_dir");
    reveal_strlit("running");
    reveal_strlit("logs");
    reveal_strlit("check");
    let keys = status_keys();
    assert(keys[0] == "platform"@);
    assert(keys[1] == "scope"@);
    assert(keys[2] == "definition"@);
    assert(keys[3] == "definition_present"@);
    assert(keys[4] == "bin"@);
    assert(keys[5] == "exec_bin"@);
    assert(keys[6] == "config"@);
    assert(keys[7] == "config_error"@);
    assert(keys[8] == "root_dir"@);
    assert(keys[9] == "run_dir"@);
    assert(keys[10] == "state_dir"@);
    assert(keys[11] == "log_dir"@);
    assert(keys[12] == "running"@);
    assert(keys[13] == "logs"@);
}

/// What a status shows for each of the keys. Whether the configuration could be read counts
/// only where it could not.
pub open spec fn status_values(status: ServiceStatusView) -> Seq<Seq<char>> {
    seq![
        platform_word(status.platform),
        scope_word(status.scope),
        display_text(status.definition_path),
        truth_word(status.definition_present),
        display_text(status.bin) + presence_mark(status.bin_present),
        display_text(status.exec_bin) + presence_mark(status.exec_bin_present),
        display_text(status.config_path) + presence_mark(status.config_present),
        match status.config_error {
            Some(reason) => reason,
            None => "-"@,
        },
        dir_or_dash(status.root_dir),
        dir_or_dash(status.run_dir),
        dir_or_dash(status.state_dir),
        dir_or_dash(status.log_dir),
        running_word(status.running),
        status.log_hint,
    ]
}

/// The word for a service manager.
pub open spec fn platform_word(platform: ServicePlatform) -> Seq<char> {
    match platform {
        ServicePlatform::Systemd => "systemd"@,
        ServicePlatform::Launchd => "launchd"@,
    }
}

/// The word for a scope.
pub open spec fn scope_word(scope: ServiceScope) -> Seq<char> {
    match scope {
        ServiceScope::System => "system"@,
        ServiceScope::User => "user"@,
    }
}

/// The word for a truth value.
pub open spec fn truth_word(b: bool) -> Seq<char> {
    if b {
        "true"@
    } else {
        "false"@
    }
}

/// The mark behind a path that is there or not.
pub open spec fn presence_mark(present: bool) -> Seq<char> {
    if present {
        " (present)"@
    } else {
        " (missing)"@
    }
}

/// A directory that is known, or a dash.
pub open spec fn dir_or_dash(dir: Option<Seq<u8>>) -> Seq<char> {
    match dir {
        Some(path) => display_text(path),
        None => "-"@,
    }
}

/// What is shown of whether a daemon runs.
pub open spec fn running_word(running: Option<bool>) -> Seq<char> {
    match running {
        Some(held) => truth_word(held),
        None => "unknown (no readable config)"@,
    }
}

/// The place of a shown line among the keys: the error of the configuration is left out
/// where there is none.
spec fn key_place(status: ServiceStatusView, i: int) -> int {
    if status.config_error is None && i >= 7 {
        i + 1
    } else {
        i
    }
}

/// How many lines are shown before the commands for a closer look.
spec fn own_lines(status: ServiceStatusView) -> int {
    if status.config_error is None {
        13
    } else {
        14
    }
}

spec fn report_keys(status: ServiceStatusView, checks: nat) -> Seq<Seq<char>> {
    Seq::new(
        (own_lines(status) + checks) as nat,
        |i: int|
            if i < own_lines(status) {
                status_keys()[key_place(status, i)]
            } else {
                "check"@
            },
    )
}

spec fn report_values(status: ServiceStatusView, checks: Seq<ServiceCommandView>) -> Seq<
    Seq<char>,
> {
    Seq::new(
        (own_lines(status) + checks.len()) as nat,
        |i: int|
            if i < own_lines(status) {
                status_values(status)[key_place(status, i)]
            } else {
                command_line_text(checks[i - own_lines(status)])
            },
    )
}

proof fn lemma_status_literals()
    ensures
        "platform="@ == "platform"@ + seq!['='],
        "scope="@ == "scope"@ + seq!['='],
        "definition="@ == "definition"@ + seq!['='],
        "definition_present="@ == "definition_present"@ + seq!['='],
        "bin="@ == "bin"@ + seq!['='],
        "exec_bin="@ == "exec_bin"@ + seq!['='],
        "config="@ == "config"@ + seq!['='],
        "config_error="@ == "config_error"@ + seq!['='],
        "logs="@ == "logs"@ + seq!['='],
        "check="@ == "check"@ + seq!['='],
        "="@ == seq!['='],
        "=-"@ == seq!['='] + "-"@,
        "running=true"@ == keyed("running"@, "true"@),
        "running=false"@ == keyed("running"@, "false"@),
        "running=unknown (no readable config)"@ == keyed(
            "running"@,
            "unknown (no readable config)"@,
        ),
{
    reveal_strlit("bin");
    reveal_strlit("check");
    reveal_strlit("config");
    reveal_strlit("config_error");
    reveal_strlit("definition");
    reveal_strlit("definition_present");
    reveal_strlit("exec_bin");
    reveal_strlit("logs");
    reveal_strlit("platform");
    reveal_strlit("running");
    reveal_strlit("scope");
    reveal_strlit("platform=");
    reveal_strlit("scope=");
    reveal_strlit("definition=");
    reveal_strlit("definition_present=");
    reveal_strlit("bin=");
    reveal_strlit("exec_bin=");
    reveal_strlit("config=");
    reveal_strlit("config_error=");
    reveal_strlit("logs=");
    reveal_strlit("check=");
    reveal_strlit("=");
    reveal_strlit("=-");
    reveal_strlit("-");
    reveal_strlit("running=true");
    reveal_strlit("running=false");
    reveal_strlit("running=unknown (no readable config)");
    reveal_strlit("true");
    reveal_strlit("false");
    reveal_strlit("unknown (no readable config)");
    assert("platform="@ =~= "platform"@ + seq!['=']);
    assert("scope="@ =~= "scope"@ + seq!['=']);
    assert("definition="@ =~= "definition"@ + seq!['=']);
    assert("definition_present="@ =~= "definition_present"@ + seq!['=']);
    assert("bin="@ =~= "bin"@ + seq!['=']);
    assert("exec_bin="@ =~= "exec_bin"@ + seq!['=']);
    assert("config="@ =~= "config"@ + seq!['=']);
    assert("config_error="@ =~= "config_error"@ + seq!['=']);
    assert("logs="@ =~= "logs"@ + seq!['=']);
    assert("check="@ =~= "check"@ + seq!['=']);
    assert("="@ =~= seq!['=']);
    assert("=-"@ =~= seq!['='] + "-"@);
    assert("running=true"@ =~= keyed("running"@, "true"@));
    assert("running=false"@ =~= keyed("running"@, "false"@));
    assert("running=unknown (no readable config)"@ =~= keyed(
        "running"@,
        "unknown (no readable config)"@,
    ));
}

#[verifier::rlimit(30)]
proof fn lemma_report_lines(status: ServiceStatusView, spec: ServiceSpecView, uid: u32)
    ensures
        ({
            let report = status_report(status, spec, uid);
            let checks = inspection(status.platform, spec, uid);
            let keys = report_keys(status, checks.len());
            let values = report_values(status, checks);
            &&& report.len() == keys.len()
            &&& report.len() == values.len()
            &&& forall|i: int|
                0 <= i < report.len() ==> #[trigger] report[i] == keyed(keys[i], values[i])
        }),
{
    lemma_status_literals();
    let report = status_report(status, spec, uid);
    let checks = inspection(status.platform, spec, uid);
    let keys = report_keys(status, checks.len());
    let values = report_values(status, checks);
    let n = own_lines(status);
    let head = status_head(status);
    let tail = status_tail(status);
    let sk = status_keys();
    let sv = status_values(status);
    assert(head[0] =~= keyed(sk[0], sv[0]));
    assert(head[1] =~= keyed(sk[1], sv[1]));
    assert(head[2] =~= keyed(sk[2], sv[2]));
    assert(head[3] =~= keyed(sk[3], sv[3]));
    assert(head[4] =~= keyed(sk[4], sv[4]));
    assert(head[5] =~= keyed(sk[5], sv[5]));
    assert(head[6] =~= keyed(sk[6], sv[6]));
    assert(tail[0] =~= keyed(sk[8], sv[8]));
    assert(tail[1] =~= keyed(sk[9], sv[9]));
    assert(tail[2] =~= keyed(sk[10], sv[10]));
    assert(tail[3] =~= keyed(sk[11], sv[11]));
    assert(tail[4] =~= keyed(sk[12], sv[12]));
    assert(tail[5] =~= keyed(sk[13], sv[13]));
    let middle = match status.config_error {
        Some(reason) => seq!["config_error="@ + reason],
        None => Seq::empty(),
    };
    assert(report == head + middle + tail + status_checks(checks));
    assert forall|i: int| 0 <= i < report.len() implies #[trigger] report[i] == keyed(
        keys[i],
        values[i],
    ) by {
        if i >= n {
            assert(report[i] == status_checks(checks)[i - n]);
            assert(report[i] == "check="@ + command_line_text(checks[i - n]));
        } else if i < 7 {
            assert(report[i] == head[i]);
        } else if status.config_error is Some && i == 7 {
            assert(report[i] == middle[0]);
        } else {
            assert(report[i] == tail[key_place(status, i) - 8]);
        }
    }
}

proof fn lemma_report_says(status: ServiceStatusView, spec: ServiceSpecView, uid: u32, at: int)
    requires
        0 <= at < own_lines(status),
    ensures
        says(
            status_report(status, spec, uid),
            status_keys()[key_place(status, at)],
            status_values(status)[key_place(status, at)],
        ),
{
    let report = status_report(status, spec, uid);
    let checks = inspection(status.platform, spec, uid);
    let keys = report_keys(status, checks.len());
    let values = report_values(status, checks);
    lemma_report_lines(status, spec, uid);
    lemma_status_keys();
    let sk = status_keys();
    let p = key_place(status, at);
    assert forall|i: int| 0 <= i < keys.len() implies !(#[trigger] keys[i]).contains('=') by {
        if i < own_lines(status) {
            assert(!sk[key_place(status, i)].contains('='));
        }
    }
    assert forall|i: int| 0 <= i < keys.len() && i != at implies #[trigger] keys[i] != keys[at] by {
        assert(sk[p] != "check"@);
        if i < own_lines(status) {
            let q = key_place(status, i);
            assert(q != p);
            if p < q {
                assert(sk[p] != sk[q]);
            } else {
                assert(sk[q] != sk[p]);
            }
        }
    }
    lemma_says(report, keys, values, at);
}

/// A status says of each thing what was found, and says it once: which service manager and
/// scope it is about, where the definition, the binary, the executor and the configuration
/// are and whether they are there, the four directories or a dash where they are not known,
/// whether a daemon runs, and where the logs are.
pub proof fn law_a_status_says_what_was_found(
    status: ServiceStatusView,
    spec: ServiceSpecView,
    uid: u32,
)
    ensures
        ({
            let report = status_report(status, spec, uid);
            &&& says(report, "platform"@, platform_word(status.platform))
            &&& says(report, "scope"@, scope_word(status.scope))
            &&& says(report, "definition"@, display_text(status.definition_path))
            &&& says(report, "definition_present"@, truth_word(status.definition_present))
            &&& says(report, "bin"@, display_text(status.bin) + presence_mark(status.bin_present))
            &&& says(
                report,
                "exec_bin"@,
                display_text(status.exec_bin) + presence_mark(status.exec_bin_present),
            )
            &&& says(
                report,
                "config"@,
                display_text(status.config_path) + presence_mark(status.config_present),
            )
            &&& says(report, "root_dir"@, dir_or_dash(status.root_dir))
            &&& says(report, "run_dir"@, dir_or_dash(status.run_dir))
            &&& says(report, "state_dir"@, dir_or_dash(status.state_dir))
            &&& says(report, "log_dir"@, dir_or_dash(status.log_dir))
            &&& says(report, "running"@, running_word(status.running))
            &&& says(report, "logs"@, status.log_hint)
        }),
{
    let n = if status.config_error is None {
        7int
    } else {
        8int
    };
    let sk = status_keys();
    let sv = status_values(status);
    lemma_report_says(status, spec, uid, 0);
    lemma_report_says(status, spec, uid, 1);
    lemma_report_says(status, spec, uid, 2);
    lemma_report_says(status, spec, uid, 3);
    lemma_report_says(status, spec, uid, 4);
    lemma_report_says(status, spec, uid, 5);
    lemma_report_says(status, spec, uid, 6);
    lemma_report_says(status, spec, uid, n + 0);
    lemma_report_says(status, spec, uid, n + 1);
    lemma_report_says(status, spec, uid, n + 2);
    lemma_report_says(status, spec, uid, n + 3);
    lemma_report_says(status, spec, uid, n + 4);
    lemma_report_says(status, spec, uid, n + 5);
    assert(sk[0] == "platform"@);
    assert(sk[1] == "scope"@);
    assert(sk[2] == "definition"@);
    assert(sk[3] == "definition_present"@);
    assert(sk[4] == "bin"@);
    assert(sk[5] == "exec_bin"@);
    assert(sk[6] == "config"@);
    assert(sk[7] == "config_error"@);
    assert(sk[8] == "root_dir"@);
    assert(sk[9] == "run_dir"@);
    assert(sk[10] == "state_dir"@);
    assert(sk[11] == "log_dir"@);
    assert(sk[12] == "running"@);
    assert(sk[13] == "logs"@);
}

/// The error of the configuration is shown exactly where there is one.
pub proof fn law_a_status_shows_the_error_of_the_configuration(
    status: ServiceStatusView,
    spec: ServiceSpecView,
    uid: u32,
)
    ensures
        match status.config_error {
            Some(reason) => says(status_report(status, spec, uid), "config_error"@, reason),
            None => forall|i: int|
                0 <= i < status_report(status, spec, uid).len() ==> !starts_text(
                    #[trigger] status_report(status, spec, uid)[i],
                    "config_error"@ + seq!['='],
                ),
        },
{
    let report = status_report(status, spec, uid);
    let sk = status_keys();
    assert(sk[7] == "config_error"@);
    if status.config_error is Some {
        lemma_report_says(status, spec, uid, 7);
    } else {
        let checks = inspection(status.platform, spec, uid);
        let keys = report_keys(status, checks.len());
        let values = report_values(status, checks);
        lemma_report_lines(status, spec, uid);
        lemma_status_keys();
        assert forall|i: int| 0 <= i < report.len() implies !starts_text(
            #[trigger] report[i],
            "config_error"@ + seq!['='],
        ) by {
            assert(!sk[7].contains('='));
            if i < own_lines(status) {
                let q = key_place(status, i);
                assert(!sk[q].contains('='));
                if q < 7 {
                    assert(sk[q] != sk[7]);
                } else {
                    assert(sk[7] != sk[q]);
                }
            }
            lemma_other_key("config_error"@, keys[i], values[i]);
        }
    }
}

/// The status tells the three states of the daemon apart: it holds the line for one of them
/// exactly where the daemon is in that state.
pub proof fn law_a_status_tells_whether_a_daemon_runs(
    status: ServiceStatusView,
    spec: ServiceSpecView,
    uid: u32,
)
    ensures
        status_report(status, spec, uid).contains("running=true"@) <==> status.running == Some(
            true,
        ),
        status_report(status, spec, uid).contains("running=false"@) <==> status.running == Some(
            false,
        ),
        status_report(status, spec, uid).contains("running=unknown (no readable config)"@)
            <==> status.running is None,
{
    let report = status_report(status, spec, uid);
    law_a_status_says_what_was_found(status, spec, uid);
    lemma_status_literals();
    let value = running_word(status.running);
    let shown = keyed("running"@, value);
    let at = choose|at: int| 0 <= at < report.len() && #[trigger] report[at] == shown;
    assert(report[at] == shown);
    lemma_running_line(report, status.running, Some(true));
    lemma_running_line(report, status.running, Some(false));
    lemma_running_line(report, status.running, None);
}

proof fn lemma_running_line(
    report: Seq<Seq<char>>,
    running: Option<bool>,
    state: Option<bool>,
)
    requires
        says(report, "running"@, running_word(running)),
    ensures
        report.contains(keyed("running"@, running_word(state))) <==> running == state,
{
    reveal_strlit("true");
    reveal_strlit("false");
    reveal_strlit("unknown (no readable config)");
    assert("true"@.len() == 4 && "false"@.len() == 5 && "unknown (no readable config)"@.len()
        > 5);
    let line = keyed("running"@, running_word(state));
    let shown = keyed("running"@, running_word(running));
    if running == state {
        let at = choose|at: int| 0 <= at < report.len() && #[trigger] report[at] == shown;
        assert(report[at] == line);
    }
    if report.contains(line) {
        let i = choose|i: int| 0 <= i < report.len() && report[i] == line;
        let start = "running"@ + seq!['='];
        assert(line.take(start.len() as int) =~= start);
        assert(report[i] == shown);
        assert(line.len() == start.len() + running_word(state).len());
        assert(shown.len() == start.len() + running_word(running).len());
    }
}

/// The commands for a closer look are shown behind everything else, in their order.
pub proof fn law_a_status_ends_with_the_commands(
    status: ServiceStatusView,
    spec: ServiceSpecView,
    uid: u32,
    i: int,
)
    requires
        0 <= i < inspection(status.platform, spec, uid).len(),
    ensures
        ({
            let report = status_report(status, spec, uid);
            let checks = inspection(status.platform, spec, uid);
            report[report.len() - checks.len() + i] == "check="@ + command_line_text(checks[i])
        }),
{
    lemma_report_lines(status, spec, uid);
    lemma_status_literals();
}

} // verus!

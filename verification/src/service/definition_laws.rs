//! What holds of every service definition and of where it lies.
use crate::error::{AgentdErrorView, AgentdReason};
use crate::os_text::display_text;
use crate::path_step_laws::{
    is_name_text, law_join_appends_a_name, law_siblings_share_their_parent, lemma_below_text,
    lemma_name_text, lemma_top_text,
};
use crate::paths::{
    components, ends_in_name, is_rooted, joined_path, law_parent_drops_the_last_component,
    parent_path, Component,
};
use crate::service::install::{
    install_report, install_steps, step_failure_text, unrepresentable_path, InstallStepView,
};
use crate::service::launchd::{kv_element, log_directory, plist_definition, plist_parts, xml_text};
use crate::service::laws::{
    law_start_directive_reads_back, law_unit_arguments_read_back, law_xml_text_reads_back,
    unit_words, xml_read,
};
use crate::service::systemd::{unit_argument, unit_lines, wanted_by};
use crate::service::{
    default_bin_path, default_config_path, definition_text, standard_layout, ServiceLayoutView,
    ServicePlatform, ServiceScope, ServiceSpecView,
};
use crate::text::{concatenated, debug_quoted, ended_lines, is_single_line};
use crate::text_laws::{
    holds_text, keyed, law_concatenation_goes_part_by_part, lemma_holds_between, lemma_says,
    lemma_starts_other, says, starts_text,
};
use vstd::prelude::*;
use vstd::string::*;
use vstd::utf8::*;

verus! {

/// Whether lines give a key a value in a section, and nowhere another one: the last header
/// before the line is that of the section.
pub open spec fn says_in(
    lines: Seq<Seq<char>>,
    section: Seq<char>,
    key: Seq<char>,
    value: Seq<char>,
) -> bool {
    &&& says(lines, key, value)
    &&& exists|at: int, line: int|
        0 <= at < line < lines.len() && #[trigger] lines[at] == section && #[trigger] lines[line]
            == key + seq!['='] + value && forall|i: int|
            at < i < line ==> !starts_text(#[trigger] lines[i], seq!['['])
}

/// The keys of the lines of a unit; headers and blank lines have none.
spec fn unit_keys() -> Seq<Seq<char>> {
    seq![
        ""@,
        "Description"@,
        "Documentation"@,
        "After"@,
        "Wants"@,
        "StartLimitIntervalSec"@,
        "StartLimitBurst"@,
        ""@,
        ""@,
        "Type"@,
        "ExecStart"@,
        "EnvironmentFile"@,
        "Restart"@,
        "RestartSec"@,
        "KillSignal"@,
        "KillMode"@,
        "TimeoutStopSec"@,
        "SyslogIdentifier"@,
        "StandardOutput"@,
        "StandardError"@,
        "LimitNOFILE"@,
        "NoNewPrivileges"@,
        ""@,
        ""@,
        "WantedBy"@,
    ]
}

/// The values of the lines of a unit.
spec fn unit_values(spec: ServiceSpecView) -> Seq<Seq<char>> {
    seq![
        ""@,
        "wist agent daemon (edge controller)"@,
        "https://github.com/dayu-sec/wist-agentd"@,
        "network-online.target"@,
        "network-online.target"@,
        "60"@,
        "10"@,
        ""@,
        ""@,
        "simple"@,
        unit_argument(display_text(spec.bin)) + " --config-dir "@ + unit_argument(
            display_text(spec.config_dir),
        ),
        seq!['-'] + unit_argument(display_text(spec.env_path())),
        "always"@,
        "5"@,
        "SIGTERM"@,
        "control-group"@,
        "30"@,
        "wist-agentd"@,
        "journal"@,
        "journal"@,
        "65536"@,
        "true"@,
        ""@,
        ""@,
        wanted_by(spec.scope),
    ]
}

/// By what a key is told from the others: its length, its first and its last character.
spec fn key_code(key: Seq<char>) -> (nat, char, char) {
    (key.len(), key[0], key.last())
}

/// Whether a line of a unit has a key.
spec fn has_key(i: int) -> bool {
    i != 0 && i != 7 && i != 8 && i != 22 && i != 23
}

#[verifier::rlimit(30)]
proof fn lemma_unit_keys(i: int)
    requires
        0 <= i < 25,
    ensures
        !unit_keys()[i].contains('='),
        has_key(i) ==> unit_keys()[i].len() > 0 && key_code(unit_keys()[i]) == (
        if i == 1 {
            (11nat, 'D', 'n')
        } else if i == 2 {
            (13nat, 'D', 'n')
        } else if i == 3 {
            (5nat, 'A', 'r')
        } else if i == 4 {
            (5nat, 'W', 's')
        } else if i == 5 {
            (21nat, 'S', 'c')
        } else if i == 6 {
            (15nat, 'S', 't')
        } else if i == 9 {
            (4nat, 'T', 'e')
        } else if i == 10 {
            (9nat, 'E', 't')
        } else if i == 11 {
            (15nat, 'E', 'e')
        } else if i == 12 {
            (7nat, 'R', 't')
        } else if i == 13 {
            (10nat, 'R', 'c')
        } else if i == 14 {
            (10nat, 'K', 'l')
        } else if i == 15 {
            (8nat, 'K', 'e')
        } else if i == 16 {
            (14nat, 'T', 'c')
        } else if i == 17 {
            (16nat, 'S', 'r')
        } else if i == 18 {
            (14nat, 'S', 't')
        } else if i == 19 {
            (13nat, 'S', 'r')
        } else if i == 20 {
            (11nat, 'L', 'E')
        } else if i == 21 {
            (15nat, 'N', 's')
        } else {
            (8nat, 'W', 'y')
        }),
        !has_key(i) ==> unit_keys()[i].len() == 0,
{
    reveal_strlit("");
    reveal_strlit("Description");
    reveal_strlit("Documentation");
    reveal_strlit("After");
    reveal_strlit("Wants");
    reveal_strlit("StartLimitIntervalSec");
    reveal_strlit("StartLimitBurst");
    reveal_strlit("Type");
    reveal_strlit("ExecStart");
    reveal_strlit("EnvironmentFile");
    reveal_strlit("Restart");
    reveal_strlit("RestartSec");
    reveal_strlit("KillSignal");
    reveal_strlit("KillMode");
    reveal_strlit("TimeoutStopSec");
    reveal_strlit("SyslogIdentifier");
    reveal_strlit("StandardOutput");
    reveal_strlit("StandardError");
    reveal_strlit("LimitNOFILE");
    reveal_strlit("NoNewPrivileges");
    reveal_strlit("WantedBy");
    let keys = unit_keys();
    assert(keys[0] == ""@);
    assert(keys[1] == "Description"@);
    assert(keys[2] == "Documentation"@);
    assert(keys[3] == "After"@);
    assert(keys[4] == "Wants"@);
    assert(keys[5] == "StartLimitIntervalSec"@);
    assert(keys[6] == "StartLimitBurst"@);
    assert(keys[7] == ""@);
    assert(keys[8] == ""@);
    assert(keys[9] == "Type"@);
    assert(keys[10] == "ExecStart"@);
    assert(keys[11] == "EnvironmentFile"@);
    assert(keys[12] == "Restart"@);
    assert(keys[13] == "RestartSec"@);
    assert(keys[14] == "KillSignal"@);
    assert(keys[15] == "KillMode"@);
    assert(keys[16] == "TimeoutStopSec"@);
    assert(keys[17] == "SyslogIdentifier"@);
    assert(keys[18] == "StandardOutput"@);
    assert(keys[19] == "StandardError"@);
    assert(keys[20] == "LimitNOFILE"@);
    assert(keys[21] == "NoNewPrivileges"@);
    assert(keys[22] == ""@);
    assert(keys[23] == ""@);
    assert(keys[24] == "WantedBy"@);
}

#[verifier::rlimit(30)]
proof fn lemma_unit_lines(spec: ServiceSpecView)
    ensures
        unit_lines(spec).len() == 25,
        unit_values(spec).len() == 25,
        unit_lines(spec)[0] == "[Unit]"@,
        unit_lines(spec)[8] == "[Service]"@,
        unit_lines(spec)[23] == "[Install]"@,
        forall|i: int|
            0 <= i < 25 && has_key(i) ==> #[trigger] unit_lines(spec)[i] == keyed(
                unit_keys()[i],
                unit_values(spec)[i],
            ),
        forall|i: int|
            0 <= i < 25 && !has_key(i) ==> !(#[trigger] unit_lines(spec)[i]).contains('='),
{
    let lines = unit_lines(spec);
    let keys = unit_keys();
    let values = unit_values(spec);
    reveal_strlit("");
    reveal_strlit("[Unit]");
    reveal_strlit("[Service]");
    reveal_strlit("[Install]");
    reveal_strlit("Description");
    reveal_strlit("wist agent daemon (edge controller)");
    reveal_strlit("Description=wist agent daemon (edge controller)");
    reveal_strlit("Documentation");
    reveal_strlit("https://github.com/dayu-sec/wist-agentd");
    reveal_strlit("Documentation=https://github.com/dayu-sec/wist-agentd");
    reveal_strlit("After");
    reveal_strlit("network-online.target");
    reveal_strlit("After=network-online.target");
    reveal_strlit("Wants");
    reveal_strlit("Wants=network-online.target");
    reveal_strlit("StartLimitIntervalSec");
    reveal_strlit("60");
    reveal_strlit("StartLimitIntervalSec=60");
    reveal_strlit("StartLimitBurst");
    reveal_strlit("10");
    reveal_strlit("StartLimitBurst=10");
    reveal_strlit("Type");
    reveal_strlit("simple");
    reveal_strlit("Type=simple");
    reveal_strlit("ExecStart");
    reveal_strlit("ExecStart=");
    reveal_strlit("EnvironmentFile");
    reveal_strlit("EnvironmentFile=-");
    reveal_strlit("Restart");
    reveal_strlit("always");
    reveal_strlit("Restart=always");
    reveal_strlit("RestartSec");
    reveal_strlit("5");
    reveal_strlit("RestartSec=5");
    reveal_strlit("KillSignal");
    reveal_strlit("SIGTERM");
    reveal_strlit("KillSignal=SIGTERM");
    reveal_strlit("KillMode");
    reveal_strlit("control-group");
    reveal_strlit("KillMode=control-group");
    reveal_strlit("TimeoutStopSec");
    reveal_strlit("30");
    reveal_strlit("TimeoutStopSec=30");
    reveal_strlit("SyslogIdentifier");
    reveal_strlit("SyslogIdentifier=");
    reveal_strlit("StandardOutput");
    reveal_strlit("journal");
    reveal_strlit("StandardOutput=journal");
    reveal_strlit("StandardError");
    reveal_strlit("StandardError=journal");
    reveal_strlit("LimitNOFILE");
    reveal_strlit("65536");
    reveal_strlit("LimitNOFILE=65536");
    reveal_strlit("NoNewPrivileges");
    reveal_strlit("true");
    reveal_strlit("NoNewPrivileges=true");
    reveal_strlit("WantedBy");
    reveal_strlit("WantedBy=");
    assert(!lines[0].contains('='));
    assert(lines[1] =~= keyed(keys[1], values[1]));
    assert(lines[2] =~= keyed(keys[2], values[2]));
    assert(lines[3] =~= keyed(keys[3], values[3]));
    assert(lines[4] =~= keyed(keys[4], values[4]));
    assert(lines[5] =~= keyed(keys[5], values[5]));
    assert(lines[6] =~= keyed(keys[6], values[6]));
    assert(!lines[7].contains('='));
    assert(!lines[8].contains('='));
    assert(lines[9] =~= keyed(keys[9], values[9]));
    assert(lines[10] =~= keyed(keys[10], values[10]));
    assert(lines[11] =~= keyed(keys[11], values[11]));
    assert(lines[12] =~= keyed(keys[12], values[12]));
    assert(lines[13] =~= keyed(keys[13], values[13]));
    assert(lines[14] =~= keyed(keys[14], values[14]));
    assert(lines[15] =~= keyed(keys[15], values[15]));
    assert(lines[16] =~= keyed(keys[16], values[16]));
    assert(lines[17] =~= keyed(keys[17], values[17]));
    assert(lines[18] =~= keyed(keys[18], values[18]));
    assert(lines[19] =~= keyed(keys[19], values[19]));
    assert(lines[20] =~= keyed(keys[20], values[20]));
    assert(lines[21] =~= keyed(keys[21], values[21]));
    assert(!lines[22].contains('='));
    assert(!lines[23].contains('='));
    assert(lines[24] =~= keyed(keys[24], values[24]));
}

proof fn lemma_unit_says(spec: ServiceSpecView, at: int)
    requires
        0 <= at < 25,
        has_key(at),
    ensures
        says_in(
            unit_lines(spec),
            if at < 8 {
                "[Unit]"@
            } else if at < 23 {
                "[Service]"@
            } else {
                "[Install]"@
            },
            unit_keys()[at],
            unit_values(spec)[at],
        ),
{
    let lines = unit_lines(spec);
    let keys = unit_keys();
    let values = unit_values(spec);
    lemma_unit_lines(spec);
    lemma_unit_keys(at);
    assert forall|i: int| 0 <= i < keys.len() implies !(#[trigger] keys[i]).contains('=') by {
        lemma_unit_keys(i);
    }
    assert forall|i: int| 0 <= i < keys.len() && i != at implies #[trigger] keys[i] != keys[at] by {
        lemma_unit_keys(i);
    }
    lemma_says(lines, keys, values, at);
    let header = if at < 8 {
        0int
    } else if at < 23 {
        8int
    } else {
        23int
    };
    assert forall|i: int| header < i < at implies !starts_text(#[trigger] lines[i], seq!['[']) by {
        lemma_unit_keys(i);
        if has_key(i) {
            assert(lines[i][0] == keys[i][0]);
            lemma_starts_other(lines[i], seq!['['], 0);
        } else {
            reveal_strlit("");
            assert(lines[i].len() == 0);
        }
    }
    assert(lines[at] == keys[at] + seq!['='] + values[at]);
    assert(0 <= header < at < lines.len());
}

/// A unit starts the daemon: its start directive, which systemd reads as the binary, the
/// option and the configuration directory, is that of the service section, and the
/// environment file, which may be missing, is read as `agentd.env` in that directory.
pub proof fn law_units_start_the_daemon(spec: ServiceSpecView)
    requires
        display_text(spec.bin).len() > 0,
        display_text(spec.config_dir).len() > 0,
        display_text(joined_path(spec.config_dir, encode_utf8("agentd.env"@))).len() > 0,
    ensures
        exists|start: Seq<char>|
            says_in(unit_lines(spec), "[Service]"@, "ExecStart"@, start) && #[trigger] unit_words(
                start,
            ) == Some(
                seq![display_text(spec.bin), "--config-dir"@, display_text(spec.config_dir)],
            ),
        exists|file: Seq<char>|
            says_in(unit_lines(spec), "[Service]"@, "EnvironmentFile"@, seq!['-'] + file)
                && #[trigger] unit_words(file) == Some(
                seq![display_text(joined_path(spec.config_dir, encode_utf8("agentd.env"@)))],
            ),
{
    let bin = display_text(spec.bin);
    let dir = display_text(spec.config_dir);
    let env = display_text(joined_path(spec.config_dir, encode_utf8("agentd.env"@)));
    let start = unit_argument(bin) + " --config-dir "@ + unit_argument(dir);
    law_start_directive_reads_back(bin, dir);
    lemma_unit_says(spec, 10);
    assert(unit_values(spec)[10] == start);
    assert(unit_keys()[10] == "ExecStart"@);
    law_unit_arguments_read_back(env);
    lemma_unit_says(spec, 11);
    assert(unit_values(spec)[11] == seq!['-'] + unit_argument(env));
    assert(unit_keys()[11] == "EnvironmentFile"@);
}

/// A unit is started again whenever it ended, after five seconds and within the start limit,
/// is stopped as a whole by a signal, writes to the journal, and is pulled in by the target
/// of its scope.
pub proof fn law_units_keep_the_daemon_running(spec: ServiceSpecView)
    ensures
        ({
            let lines = unit_lines(spec);
            let unit = "[Unit]"@;
            let service = "[Service]"@;
            &&& says_in(lines, unit, "Description"@, "wist agent daemon (edge controller)"@)
            &&& says_in(lines, unit, "Documentation"@, "https://github.com/dayu-sec/wist-agentd"@)
            &&& says_in(lines, unit, "After"@, "network-online.target"@)
            &&& says_in(lines, unit, "Wants"@, "network-online.target"@)
            &&& says_in(lines, unit, "StartLimitIntervalSec"@, "60"@)
            &&& says_in(lines, unit, "StartLimitBurst"@, "10"@)
            &&& says_in(lines, service, "Type"@, "simple"@)
            &&& says_in(lines, service, "Restart"@, "always"@)
            &&& says_in(lines, service, "RestartSec"@, "5"@)
            &&& says_in(lines, service, "KillSignal"@, "SIGTERM"@)
            &&& says_in(lines, service, "KillMode"@, "control-group"@)
            &&& says_in(lines, service, "TimeoutStopSec"@, "30"@)
            &&& says_in(lines, service, "SyslogIdentifier"@, "wist-agentd"@)
            &&& says_in(lines, service, "StandardOutput"@, "journal"@)
            &&& says_in(lines, service, "StandardError"@, "journal"@)
            &&& says_in(lines, service, "LimitNOFILE"@, "65536"@)
            &&& says_in(lines, service, "NoNewPrivileges"@, "true"@)
            &&& spec.scope == ServiceScope::System ==> says_in(
                lines,
                "[Install]"@,
                "WantedBy"@,
                "multi-user.target"@,
            )
            &&& spec.scope == ServiceScope::User ==> says_in(
                lines,
                "[Install]"@,
                "WantedBy"@,
                "default.target"@,
            )
        }),
{
    lemma_unit_says(spec, 1);
    assert(unit_keys()[1] == "Description"@ && unit_values(spec)[1] == "wist agent daemon (edge controller)"@);
    lemma_unit_says(spec, 2);
    assert(unit_keys()[2] == "Documentation"@ && unit_values(spec)[2] == "https://github.com/dayu-sec/wist-agentd"@);
    lemma_unit_says(spec, 3);
    assert(unit_keys()[3] == "After"@ && unit_values(spec)[3] == "network-online.target"@);
    lemma_unit_says(spec, 4);
    assert(unit_keys()[4] == "Wants"@ && unit_values(spec)[4] == "network-online.target"@);
    lemma_unit_says(spec, 5);
    assert(unit_keys()[5] == "StartLimitIntervalSec"@ && unit_values(spec)[5] == "60"@);
    lemma_unit_says(spec, 6);
    assert(unit_keys()[6] == "StartLimitBurst"@ && unit_values(spec)[6] == "10"@);
    lemma_unit_says(spec, 9);
    assert(unit_keys()[9] == "Type"@ && unit_values(spec)[9] == "simple"@);
    lemma_unit_says(spec, 12);
    assert(unit_keys()[12] == "Restart"@ && unit_values(spec)[12] == "always"@);
    lemma_unit_says(spec, 13);
    assert(unit_keys()[13] == "RestartSec"@ && unit_values(spec)[13] == "5"@);
    lemma_unit_says(spec, 14);
    assert(unit_keys()[14] == "KillSignal"@ && unit_values(spec)[14] == "SIGTERM"@);
    lemma_unit_says(spec, 15);
    assert(unit_keys()[15] == "KillMode"@ && unit_values(spec)[15] == "control-group"@);
    lemma_unit_says(spec, 16);
    assert(unit_keys()[16] == "TimeoutStopSec"@ && unit_values(spec)[16] == "30"@);
    lemma_unit_says(spec, 17);
    assert(unit_keys()[17] == "SyslogIdentifier"@ && unit_values(spec)[17] == "wist-agentd"@);
    lemma_unit_says(spec, 18);
    assert(unit_keys()[18] == "StandardOutput"@ && unit_values(spec)[18] == "journal"@);
    lemma_unit_says(spec, 19);
    assert(unit_keys()[19] == "StandardError"@ && unit_values(spec)[19] == "journal"@);
    lemma_unit_says(spec, 20);
    assert(unit_keys()[20] == "LimitNOFILE"@ && unit_values(spec)[20] == "65536"@);
    lemma_unit_says(spec, 21);
    assert(unit_keys()[21] == "NoNewPrivileges"@ && unit_values(spec)[21] == "true"@);
    lemma_unit_says(spec, 24);
    assert(unit_keys()[24] == "WantedBy"@ && unit_values(spec)[24] == wanted_by(spec.scope));
}

/// Whether a property list gives a key a text: it stands behind the key as what is read back
/// as that text, and no markup hides in it.
pub open spec fn gives_text(plist: Seq<char>, key: Seq<char>, value: Seq<char>) -> bool {
    exists|written: Seq<char>|
        #[trigger] xml_read(written) == value && !written.contains('<') && holds_text(
            plist,
            "<key>"@ + key + "</key>\n  <string>"@ + written + "</string>\n"@,
        )
}

proof fn lemma_parts_hold(parts: Seq<Seq<char>>, from: int, to: int)
    requires
        0 <= from <= to <= parts.len(),
    ensures
        holds_text(concatenated(parts), concatenated(parts.subrange(from, to))),
{
    let front = parts.take(from);
    let middle = parts.subrange(from, to);
    let back = parts.skip(to);
    assert(parts =~= front + middle + back);
    law_concatenation_goes_part_by_part(front + middle, back);
    law_concatenation_goes_part_by_part(front, middle);
    lemma_holds_between(concatenated(front), concatenated(middle), concatenated(back));
}

proof fn lemma_part_holds(parts: Seq<Seq<char>>, at: int)
    requires
        0 <= at < parts.len(),
    ensures
        holds_text(concatenated(parts), parts[at]),
{
    lemma_parts_hold(parts, at, at + 1);
    let one = parts.subrange(at, at + 1);
    assert(one =~= seq![parts[at]]);
    law_concatenation_goes_part_by_part(one, Seq::empty());
}

/// What stands in a part of a text stands in the text.
proof fn lemma_holds_within(whole: Seq<char>, outer: Seq<char>, skipped: Seq<char>, inner: Seq<char>)
    requires
        holds_text(whole, outer),
        outer == skipped + inner,
    ensures
        holds_text(whole, inner),
{
    let (front, back) = choose|front: Seq<char>, back: Seq<char>|
        whole == #[trigger] (front + outer + back);
    assert(whole =~= (front + skipped) + inner + back);
    lemma_holds_between(front + skipped, inner, back);
}

proof fn lemma_gives(parts: Seq<Seq<char>>, at: int, key: Seq<char>, value: Seq<char>)
    requires
        0 <= at < parts.len(),
        parts[at] == kv_element(key, value),
        forall|i: int|
            0 <= i < key.len() ==> #[trigger] key[i] != '&' && !crate::service::laws::is_markup(
                key[i],
            ),
    ensures
        gives_text(concatenated(parts), key, value),
{
    lemma_part_holds(parts, at);
    crate::service::laws::law_xml_plain_text_stays(key);
    law_xml_text_reads_back(value);
    lemma_no_tag(value);
    reveal_strlit("  <key>");
    reveal_strlit("<key>");
    assert("  <key>"@ =~= seq![' ', ' '] + "<key>"@);
    let inner = "<key>"@ + key + "</key>\n  <string>"@ + xml_text(value) + "</string>\n"@;
    assert(kv_element(key, value) =~= seq![' ', ' '] + inner);
    lemma_holds_within(concatenated(parts), parts[at], seq![' ', ' '], inner);
    assert(xml_read(xml_text(value)) == value);
}

proof fn lemma_no_tag(value: Seq<char>)
    ensures
        !xml_text(value).contains('<'),
{
    crate::service::laws::law_xml_text_has_no_markup(value);
    if xml_text(value).contains('<') {
        let i = choose|i: int| 0 <= i < xml_text(value).len() && xml_text(value)[i] == '<';
        assert(crate::service::laws::is_markup(xml_text(value)[i]));
    }
}

/// A property list starts the daemon: its program arguments are read back as the binary, the
/// option and the configuration directory, and nothing else.
#[verifier::rlimit(30)]
pub proof fn law_property_lists_start_the_daemon(
    spec: ServiceSpecView,
    log_dir: Option<Seq<u8>>,
    home: Option<Seq<u8>>,
)
    ensures
        exists|bin: Seq<char>, dir: Seq<char>|
            #[trigger] xml_read(bin) == display_text(spec.bin) && #[trigger] xml_read(dir)
                == display_text(spec.config_dir) && !bin.contains('<') && !dir.contains('<')
                && holds_text(
                plist_definition(spec, log_dir, home),
                "<key>ProgramArguments</key>\n  <array>\n    <string>"@ + bin
                    + "</string>\n    <string>--config-dir</string>\n    <string>"@ + dir
                    + "</string>\n  </array>\n"@,
            ),
{
    let parts = plist_parts(spec, log_dir, home);
    let bin = xml_text(display_text(spec.bin));
    let dir = xml_text(display_text(spec.config_dir));
    law_xml_text_reads_back(display_text(spec.bin));
    law_xml_text_reads_back(display_text(spec.config_dir));
    lemma_no_tag(display_text(spec.bin));
    lemma_no_tag(display_text(spec.config_dir));
    lemma_parts_hold(parts, 4, 9);
    let five = parts.subrange(4, 9);
    assert(five =~= seq![parts[4], parts[5], parts[6], parts[7], parts[8]]);
    lemma_five(parts[4], parts[5], parts[6], parts[7], parts[8]);
    reveal_strlit("  <key>ProgramArguments</key>\n  <array>\n");
    reveal_strlit("    <string>");
    reveal_strlit("</string>\n");
    reveal_strlit("    <string>--config-dir</string>\n");
    reveal_strlit("  </array>\n");
    reveal_strlit("<key>ProgramArguments</key>\n  <array>\n    <string>");
    reveal_strlit("</string>\n    <string>--config-dir</string>\n    <string>");
    reveal_strlit("</string>\n  </array>\n");
    let two = seq![' ', ' '];
    let a = "<key>ProgramArguments</key>\n  <array>\n    <string>"@;
    let b = "</string>\n    <string>--config-dir</string>\n    <string>"@;
    let c = "</string>\n  </array>\n"@;
    assert("  <key>ProgramArguments</key>\n  <array>\n"@ + "    <string>"@ =~= two + a);
    assert("</string>\n"@ + "    <string>--config-dir</string>\n"@ + "    <string>"@ =~= b);
    assert("</string>\n"@ + "  </array>\n"@ =~= c);
    let whole = parts[4] + parts[5] + parts[6] + parts[7] + parts[8];
    assert(whole =~= ("  <key>ProgramArguments</key>\n  <array>\n"@ + "    <string>"@) + bin + (
    "</string>\n"@ + "    <string>--config-dir</string>\n"@ + "    <string>"@) + dir + (
    "</string>\n"@ + "  </array>\n"@));
    assert(whole =~= two + (a + bin + b + dir + c));
    lemma_holds_within(concatenated(parts), whole, two, a + bin + b + dir + c);
    assert(xml_read(bin) == display_text(spec.bin) && xml_read(dir) == display_text(
        spec.config_dir,
    ));
}

proof fn lemma_five(a: Seq<char>, b: Seq<char>, c: Seq<char>, d: Seq<char>, e: Seq<char>)
    ensures
        concatenated(seq![a, b, c, d, e]) == a + b + c + d + e,
{
    let s1 = seq![a];
    let s2 = seq![a, b];
    let s3 = seq![a, b, c];
    let s4 = seq![a, b, c, d];
    let s5 = seq![a, b, c, d, e];
    assert(s5.drop_last() =~= s4);
    assert(s4.drop_last() =~= s3);
    assert(s3.drop_last() =~= s2);
    assert(s2.drop_last() =~= s1);
    law_concatenation_goes_part_by_part(s1, Seq::empty());
    assert(concatenated(s2) == a + b);
    assert(concatenated(s3) == a + b + c);
    assert(concatenated(s4) == a + b + c + d);
    assert(concatenated(s5) == a + b + c + d + e);
}

/// A property list gives the label of the service, the directory that the job runs in and
/// the files that its output goes to. A user's job runs in the home directory where that is
/// known, and any other one in the root. The output goes to `agentd.out` and `agentd.err` in
/// the given directory, or in that of the scope, or in `/tmp` where the scope has none.
pub proof fn law_property_lists_say_where_the_job_runs(
    spec: ServiceSpecView,
    log_dir: Option<Seq<u8>>,
    home: Option<Seq<u8>>,
)
    ensures
        ({
            let plist = plist_definition(spec, log_dir, home);
            let out = encode_utf8("agentd.out"@);
            let err = encode_utf8("agentd.err"@);
            &&& gives_text(plist, "Label"@, "com.dayu-sec.wist-agentd"@)
            &&& match home {
                Some(dir) if dir.len() > 0 && spec.scope == ServiceScope::User => gives_text(
                    plist,
                    "WorkingDirectory"@,
                    display_text(dir),
                ),
                _ => gives_text(plist, "WorkingDirectory"@, display_text(encode_utf8("/"@))),
            }
            &&& match (log_dir, log_directory(spec.scope, home)) {
                (Some(dir), _) | (None, Ok(dir)) => gives_text(
                    plist,
                    "StandardOutPath"@,
                    display_text(joined_path(dir, out)),
                ) && gives_text(plist, "StandardErrorPath"@, display_text(joined_path(dir, err))),
                _ => gives_text(
                    plist,
                    "StandardOutPath"@,
                    display_text(joined_path(encode_utf8("/tmp"@), out)),
                ) && gives_text(
                    plist,
                    "StandardErrorPath"@,
                    display_text(joined_path(encode_utf8("/tmp"@), err)),
                ),
            }
        }),
{
    let parts = plist_parts(spec, log_dir, home);
    reveal_strlit("Label");
    reveal_strlit("WorkingDirectory");
    reveal_strlit("StandardOutPath");
    reveal_strlit("StandardErrorPath");
    let working = crate::service::launchd::working_dir(spec.scope, home);
    let dir = crate::service::launchd::output_dir(spec.scope, log_dir, home);
    lemma_gives(parts, 3, "Label"@, "com.dayu-sec.wist-agentd"@);
    lemma_gives(parts, 14, "WorkingDirectory"@, display_text(working));
    lemma_gives(
        parts,
        15,
        "StandardOutPath"@,
        display_text(joined_path(dir, encode_utf8("agentd.out"@))),
    );
    lemma_gives(
        parts,
        16,
        "StandardErrorPath"@,
        display_text(joined_path(dir, encode_utf8("agentd.err"@))),
    );
}

/// A job starts when it is loaded and is kept running, is throttled to one start in ten
/// seconds and has thirty seconds to end, and finds programs in the usual directories.
pub proof fn law_property_lists_keep_the_daemon_running(
    spec: ServiceSpecView,
    log_dir: Option<Seq<u8>>,
    home: Option<Seq<u8>>,
)
    ensures
        ({
            let plist = plist_definition(spec, log_dir, home);
            &&& holds_text(plist, "  <key>RunAtLoad</key>\n  <true/>\n"@)
            &&& holds_text(plist, "  <key>KeepAlive</key>\n  <true/>\n"@)
            &&& holds_text(plist, "  <key>ThrottleInterval</key>\n  <integer>10</integer>\n"@)
            &&& holds_text(plist, "  <key>ExitTimeOut</key>\n  <integer>30</integer>\n"@)
            &&& holds_text(plist, "  <key>ProcessType</key>\n  <string>Background</string>\n"@)
            &&& holds_text(
                plist,
                "    <key>PATH</key>\n"@
                    + "    <string>/usr/local/bin:/usr/bin:/bin:/usr/sbin:/sbin</string>\n"@,
            )
        }),
{
    let parts = plist_parts(spec, log_dir, home);
    lemma_part_holds(parts, 9);
    lemma_part_holds(parts, 10);
    lemma_part_holds(parts, 11);
    lemma_part_holds(parts, 12);
    lemma_part_holds(parts, 13);
    lemma_parts_hold(parts, 18, 20);
    let two = parts.subrange(18, 20);
    assert(two =~= seq![parts[18]] + seq![parts[19]]);
    law_concatenation_goes_part_by_part(seq![parts[18]], seq![parts[19]]);
    law_concatenation_goes_part_by_part(seq![parts[19]], Seq::empty());
}

/// A name as a component.
pub open spec fn named(text: Seq<char>) -> Component {
    Component::Normal(encode_utf8(text))
}

proof fn lemma_join_names(base: Seq<u8>, path: Seq<u8>)
    requires
        base.len() > 0,
        !is_rooted(path),
        forall|i: int|
            0 <= i < components(path).len() ==> #[trigger] components(path)[i] is Normal,
    ensures
        components(joined_path(base, path)) == components(base) + components(path),
{
    crate::path_laws::law_join_adds_components(base, path);
    let lead = crate::paths::leading_component(path);
    if lead.len() > 0 {
        assert(components(path)[0] == lead[0]);
        assert(components(path)[0] is Normal);
    }
    assert(components(path) =~= crate::paths::solid_components(
        crate::paths::pieces(path, crate::paths::SEPARATOR),
    ));
}

proof fn lemma_relative_three(a: Seq<char>, b: Seq<char>, c: Seq<char>)
    requires
        is_name_text(a),
        is_name_text(b),
        is_name_text(c),
    ensures
        !is_rooted(encode_utf8(a + seq!['/'] + b)),
        components(encode_utf8(a + seq!['/'] + b)) == seq![named(a), named(b)],
        !is_rooted(encode_utf8(a + seq!['/'] + b + seq!['/'] + c)),
        components(encode_utf8(a + seq!['/'] + b + seq!['/'] + c)) == seq![
            named(a),
            named(b),
            named(c),
        ],
{
    lemma_name_text(a);
    let first = encode_utf8(a);
    assert(!is_rooted(first)) by {
        if is_rooted(first) {
            assert(first.contains(first[0]));
        }
    }
    lemma_below_text(a, b);
    let two = a + seq!['/'] + b;
    assert(two.last() == b.last());
    assert(seq![named(a)].push(named(b)) =~= seq![named(a), named(b)]);
    lemma_below_text(two, c);
    assert(seq![named(a), named(b)].push(named(c)) =~= seq![named(a), named(b), named(c)]);
}

/// A home directory that can be used.
pub open spec fn is_home(home: Option<Seq<u8>>) -> bool {
    home matches Some(dir) && dir.len() > 0
}

proof fn lemma_absolute_three(a: Seq<char>, b: Seq<char>, c: Seq<char>)
    requires
        is_name_text(a),
        is_name_text(b),
        is_name_text(c),
    ensures
        components(encode_utf8(seq!['/'] + a + seq!['/'] + b)) == seq![
            Component::Root,
            named(a),
            named(b),
        ],
        components(encode_utf8(seq!['/'] + a + seq!['/'] + b + seq!['/'] + c)) == seq![
            Component::Root,
            named(a),
            named(b),
            named(c),
        ],
{
    let top = seq!['/'] + a;
    lemma_top_text(a);
    assert(top.last() == a.last());
    lemma_below_text(top, b);
    let two = top + seq!['/'] + b;
    assert(two.last() == b.last());
    assert(seq![Component::Root, named(a)].push(named(b)) =~= seq![
        Component::Root,
        named(a),
        named(b),
    ]);
    lemma_below_text(two, c);
    assert(seq![Component::Root, named(a), named(b)].push(named(c)) =~= seq![
        Component::Root,
        named(a),
        named(b),
        named(c),
    ]);
}

/// Where systemd finds units: those of the host in `/etc/systemd/system`, those of a user in
/// `.config/systemd/user` below the home directory, without which there is no place. The
/// output goes to the journal.
#[verifier::rlimit(30)]
pub proof fn law_units_lie_where_systemd_looks(home: Option<Seq<u8>>)
    ensures
        standard_layout(ServicePlatform::Systemd, ServiceScope::System, home) matches Ok(layout)
            && layout.platform == ServicePlatform::Systemd && layout.scope == ServiceScope::System
            && layout.log_dir is None && components(layout.definition_path) == seq![
            Component::Root,
            named("etc"@),
            named("systemd"@),
            named("system"@),
            named("wist-agentd.service"@),
        ],
        is_home(home) ==> (standard_layout(
            ServicePlatform::Systemd,
            ServiceScope::User,
            home,
        ) matches Ok(layout) && layout.platform == ServicePlatform::Systemd && layout.scope
            == ServiceScope::User && layout.log_dir is None && components(layout.definition_path)
            == components(home->0) + seq![
            named(".config"@),
            named("systemd"@),
            named("user"@),
            named("wist-agentd.service"@),
        ]),
        !is_home(home) ==> (standard_layout(
            ServicePlatform::Systemd,
            ServiceScope::User,
            home,
        ) matches Err(e) && e.reason == AgentdReason::ServicePathUnresolved),
{
    reveal_strlit("etc");
    reveal_strlit("systemd");
    reveal_strlit("system");
    reveal_strlit("user");
    reveal_strlit(".config");
    reveal_strlit("wist-agentd.service");
    reveal_strlit("/etc/systemd/system");
    reveal_strlit(".config/systemd/user");
    let slash = seq!['/'];
    let name = encode_utf8("wist-agentd.service"@);
    lemma_name_text("wist-agentd.service"@);
    lemma_absolute_three("etc"@, "systemd"@, "system"@);
    assert("/etc/systemd/system"@ =~= slash + "etc"@ + slash + "systemd"@ + slash + "system"@);
    law_join_appends_a_name(encode_utf8("/etc/systemd/system"@), name);
    assert(seq![Component::Root, named("etc"@), named("systemd"@), named("system"@)].push(
        named("wist-agentd.service"@),
    ) =~= seq![
        Component::Root,
        named("etc"@),
        named("systemd"@),
        named("system"@),
        named("wist-agentd.service"@),
    ]);
    lemma_relative_three(".config"@, "systemd"@, "user"@);
    assert(".config/systemd/user"@ =~= ".config"@ + slash + "systemd"@ + slash + "user"@);
    if is_home(home) {
        let dir = home->0;
        let below = encode_utf8(".config/systemd/user"@);
        lemma_join_names(dir, below);
        law_join_appends_a_name(joined_path(dir, below), name);
        assert((components(dir) + components(below)).push(named("wist-agentd.service"@))
            =~= components(dir) + seq![
            named(".config"@),
            named("systemd"@),
            named("user"@),
            named("wist-agentd.service"@),
        ]);
    }
}

/// Where launchd finds property lists: those of the host in `/Library/LaunchDaemons`, with
/// output in `/var/log/wist-agentd`; those of a user in `Library/LaunchAgents` below the home
/// directory, with output in `Library/Logs/wist-agentd` there. Without a home directory a
/// user has neither.
#[verifier::rlimit(30)]
pub proof fn law_property_lists_lie_where_launchd_looks(home: Option<Seq<u8>>)
    ensures
        standard_layout(ServicePlatform::Launchd, ServiceScope::System, home) matches Ok(layout)
            && layout.platform == ServicePlatform::Launchd && layout.scope == ServiceScope::System
            && components(layout.definition_path) == seq![
            Component::Root,
            named("Library"@),
            named("LaunchDaemons"@),
            named("com.dayu-sec.wist-agentd.plist"@),
        ] && layout.log_dir is Some && components(layout.log_dir->0) == seq![
            Component::Root,
            named("var"@),
            named("log"@),
            named("wist-agentd"@),
        ],
        is_home(home) ==> (standard_layout(
            ServicePlatform::Launchd,
            ServiceScope::User,
            home,
        ) matches Ok(layout) && layout.platform == ServicePlatform::Launchd && layout.scope
            == ServiceScope::User && components(layout.definition_path) == components(home->0)
            + seq![
            named("Library"@),
            named("LaunchAgents"@),
            named("com.dayu-sec.wist-agentd.plist"@),
        ] && layout.log_dir is Some && components(layout.log_dir->0) == components(home->0)
            + seq![named("Library"@), named("Logs"@), named("wist-agentd"@)]),
        !is_home(home) ==> (standard_layout(
            ServicePlatform::Launchd,
            ServiceScope::User,
            home,
        ) matches Err(e) && e.reason == AgentdReason::ServicePathUnresolved),
        !is_home(home) ==> log_directory(ServiceScope::User, home) is Err,
{
    reveal_strlit("Library");
    reveal_strlit("LaunchDaemons");
    reveal_strlit("LaunchAgents");
    reveal_strlit("Logs");
    reveal_strlit("var");
    reveal_strlit("log");
    reveal_strlit("wist-agentd");
    reveal_strlit("com.dayu-sec.wist-agentd.plist");
    reveal_strlit("/Library/LaunchDaemons");
    reveal_strlit("Library/LaunchAgents");
    reveal_strlit("Library/Logs/wist-agentd");
    reveal_strlit("/var/log/wist-agentd");
    let slash = seq!['/'];
    let plist = "com.dayu-sec.wist-agentd.plist"@;
    let name = encode_utf8(plist);
    lemma_name_text(plist);
    lemma_absolute_three("Library"@, "LaunchDaemons"@, plist);
    assert("/Library/LaunchDaemons"@ =~= slash + "Library"@ + slash + "LaunchDaemons"@);
    law_join_appends_a_name(encode_utf8("/Library/LaunchDaemons"@), name);
    assert(seq![Component::Root, named("Library"@), named("LaunchDaemons"@)].push(named(plist))
        =~= seq![
        Component::Root,
        named("Library"@),
        named("LaunchDaemons"@),
        named(plist),
    ]);
    lemma_absolute_three("var"@, "log"@, "wist-agentd"@);
    assert("/var/log/wist-agentd"@ =~= slash + "var"@ + slash + "log"@ + slash + "wist-agentd"@);
    lemma_relative_three("Library"@, "LaunchAgents"@, plist);
    assert("Library/LaunchAgents"@ =~= "Library"@ + slash + "LaunchAgents"@);
    lemma_relative_three("Library"@, "Logs"@, "wist-agentd"@);
    assert("Library/Logs/wist-agentd"@ =~= "Library"@ + slash + "Logs"@ + slash
        + "wist-agentd"@);
    if is_home(home) {
        let dir = home->0;
        let agents = encode_utf8("Library/LaunchAgents"@);
        lemma_join_names(dir, agents);
        law_join_appends_a_name(joined_path(dir, agents), name);
        assert((components(dir) + components(agents)).push(named(plist)) =~= components(dir)
            + seq![named("Library"@), named("LaunchAgents"@), named(plist)]);
        lemma_join_names(dir, encode_utf8("Library/Logs/wist-agentd"@));
    }
}

/// Where a service is configured if nothing else is asked for: in `/etc/wist-agentd` for the
/// host, and in `.wist-agentd` in the home directory for a user, who needs one. Its binary is
/// the running one, in its canonical form where that is known.
pub proof fn law_services_have_default_places(
    home: Option<Seq<u8>>,
    exe: Option<Seq<u8>>,
    canonical: Option<Seq<u8>>,
)
    ensures
        default_config_path(ServiceScope::System, home) matches Ok(dir) && components(dir) == seq![
            Component::Root,
            named("etc"@),
            named("wist-agentd"@),
        ],
        is_home(home) ==> (default_config_path(ServiceScope::User, home) matches Ok(dir)
            && components(dir) == components(home->0).push(named(".wist-agentd"@))),
        !is_home(home) ==> (default_config_path(ServiceScope::User, home) matches Err(e)
            && e.reason == AgentdReason::ServicePathUnresolved),
        exe is Some && canonical is Some ==> default_bin_path(exe, canonical) == Ok::<
            _,
            AgentdErrorView,
        >(canonical->0),
        exe is Some && canonical is None ==> default_bin_path(exe, canonical) == Ok::<
            _,
            AgentdErrorView,
        >(exe->0),
        exe is None ==> (default_bin_path(exe, canonical) matches Err(e) && e.reason
            == AgentdReason::ServicePathUnresolved),
{
    reveal_strlit("etc");
    reveal_strlit("wist-agentd");
    reveal_strlit("/etc/wist-agentd");
    reveal_strlit(".wist-agentd");
    let slash = seq!['/'];
    lemma_absolute_three("etc"@, "wist-agentd"@, "wist-agentd"@);
    assert("/etc/wist-agentd"@ =~= slash + "etc"@ + slash + "wist-agentd"@);
    lemma_name_text(".wist-agentd"@);
    if is_home(home) {
        law_join_appends_a_name(home->0, encode_utf8(".wist-agentd"@));
    }
}

/// The executor of a service lies beside its binary, and its environment file in its
/// configuration directory.
pub proof fn law_services_find_their_files(spec: ServiceSpecView)
    ensures
        ends_in_name(spec.bin) ==> components(spec.exec_path()) == components(
            spec.bin,
        ).drop_last().push(named("wist-exec"@)),
        components(spec.env_path()) == components(spec.config_dir).push(named("agentd.env"@)),
{
    reveal_strlit("wist-exec");
    reveal_strlit("agentd.env");
    lemma_name_text("wist-exec"@);
    lemma_name_text("agentd.env"@);
    law_siblings_share_their_parent(spec.bin, encode_utf8("wist-exec"@));
    law_join_appends_a_name(spec.config_dir, encode_utf8("agentd.env"@));
}

/// An installation is made exactly where no path has a line break, no definition is replaced
/// against the will of the user and the definition has a directory. It creates that
/// directory, writes the definition, and creates the directory of the output files where
/// there is one, in this order and nothing else. Each refusal has its own reason.
pub proof fn law_installations_are_made_where_they_can_be(
    layout: ServiceLayoutView,
    spec: ServiceSpecView,
    force: bool,
    existed: bool,
    home: Option<Seq<u8>>,
)
    ensures
        ({
            let fits = is_single_line(display_text(spec.bin)) && is_single_line(
                display_text(spec.config_dir),
            );
            let steps = install_steps(layout, spec, force, existed, home);
            let parent = parent_path(layout.definition_path);
            &&& steps is Ok <==> fits && (force || !existed) && parent is Some
            &&& steps matches Ok(list) ==> {
                &&& list.len() == if layout.log_dir is Some {
                    3nat
                } else {
                    2nat
                }
                &&& list[0] matches InstallStepView::CreateDefinitionDir(dir) && components(dir)
                    == components(layout.definition_path).drop_last()
                &&& list[1] matches InstallStepView::WriteDefinition { path, .. } && path
                    == layout.definition_path
                &&& layout.log_dir matches Some(dir) ==> list[2] == InstallStepView::CreateLogDir(
                    dir,
                )
            }
            &&& steps matches Err(e) ==> e.reason == (if fits && existed && !force {
                AgentdReason::ServiceAlreadyInstalled
            } else {
                AgentdReason::ServicePathUnresolved
            })
            &&& unrepresentable_path(spec) is None <==> fits
        }),
{
    law_parent_drops_the_last_component(layout.definition_path);
}

/// A report tells of the installation that was made: its platform, its definition and its
/// directory of output files, that a definition was replaced exactly where one was there, and
/// of the two binaries whether they were found.
pub proof fn law_reports_tell_of_their_installation(
    layout: ServiceLayoutView,
    existed: bool,
    bin_present: bool,
    exec_bin_present: bool,
)
    ensures
        ({
            let report = install_report(layout, existed, bin_present, exec_bin_present);
            &&& report.platform == layout.platform
            &&& report.definition_path == layout.definition_path
            &&& report.log_dir == layout.log_dir
            &&& report.overwritten <==> existed
            &&& report.bin_present <==> bin_present
            &&& report.exec_bin_present <==> exec_bin_present
        }),
{
}

/// A path that cannot stand in a definition is refused by what it is: the binary, or, where
/// that can stand, the configuration directory, with its text in quotes.
pub proof fn law_refused_paths_are_named(spec: ServiceSpecView)
    ensures
        unrepresentable_path(spec) matches Some(e) ==> (e.detail matches Some(text) && {
            &&& !is_single_line(display_text(spec.bin)) ==> starts_text(
                text,
                "binary contains a newline"@,
            ) && holds_text(text, debug_quoted(display_text(spec.bin)))
            &&& is_single_line(display_text(spec.bin)) ==> starts_text(
                text,
                "config dir contains a newline"@,
            ) && holds_text(text, debug_quoted(display_text(spec.config_dir)))
        }),
{
    let said = " contains a newline and cannot be written into a service definition: "@;
    reveal_strlit(" contains a newline and cannot be written into a service definition: ");
    reveal_strlit("binary");
    reveal_strlit("config dir");
    reveal_strlit("binary contains a newline");
    reveal_strlit("config dir contains a newline");
    let none = Seq::<char>::empty();
    if let Some(e) = unrepresentable_path(spec) {
        let text = e.detail->0;
        if !is_single_line(display_text(spec.bin)) {
            let quoted = debug_quoted(display_text(spec.bin));
            assert(text =~= "binary"@ + said + quoted + none);
            lemma_holds_between("binary"@ + said, quoted, none);
            let head = "binary contains a newline"@;
            assert(text.take(head.len() as int) =~= head);
        } else {
            let quoted = debug_quoted(display_text(spec.config_dir));
            assert(text =~= "config dir"@ + said + quoted + none);
            lemma_holds_between("config dir"@ + said, quoted, none);
            let head = "config dir contains a newline"@;
            assert(text.take(head.len() as int) =~= head);
        }
    }
}

/// What is said of a step that failed names the path that it was about.
pub proof fn law_failed_steps_name_their_path(step: InstallStepView)
    ensures
        holds_text(
            step_failure_text(step),
            match step {
                InstallStepView::CreateDefinitionDir(path) => display_text(path),
                InstallStepView::WriteDefinition { path, .. } => display_text(path),
                InstallStepView::CreateLogDir(path) => display_text(path),
            },
        ),
{
    let none = Seq::<char>::empty();
    let text = step_failure_text(step);
    match step {
        InstallStepView::CreateDefinitionDir(path) => {
            assert(text =~= "create service definition dir "@ + display_text(path) + none);
            lemma_holds_between("create service definition dir "@, display_text(path), none);
        },
        InstallStepView::WriteDefinition { path, .. } => {
            assert(text =~= "write service definition "@ + display_text(path) + none);
            lemma_holds_between("write service definition "@, display_text(path), none);
        },
        InstallStepView::CreateLogDir(path) => {
            assert(text =~= "create service log dir "@ + display_text(path) + none);
            lemma_holds_between("create service log dir "@, display_text(path), none);
        },
    }
}

/// A definition is the one for its service manager: a unit of exactly the lines of a unit,
/// or a property list that sends its errors to the directory of the layout.
pub proof fn law_definitions_are_those_of_their_manager(
    layout: ServiceLayoutView,
    spec: ServiceSpecView,
    home: Option<Seq<u8>>,
)
    ensures
        layout.platform == ServicePlatform::Systemd ==> definition_text(layout, spec, home)
            == ended_lines(unit_lines(spec)),
        layout.platform == ServicePlatform::Launchd ==> {
            let plist = definition_text(layout, spec, home);
            &&& plist == plist_definition(spec, layout.log_dir, home)
            &&& layout.log_dir matches Some(dir) ==> gives_text(
                plist,
                "StandardErrorPath"@,
                display_text(joined_path(dir, encode_utf8("agentd.err"@))),
            )
            &&& starts_text(plist, "<?xml version=\"1.0\" encoding=\"UTF-8\"?>\n"@)
        },
{
    law_property_lists_say_where_the_job_runs(spec, layout.log_dir, home);
    let parts = plist_parts(spec, layout.log_dir, home);
    let first = parts.take(1);
    assert(first =~= seq![parts[0]]);
    assert(parts =~= first + parts.skip(1));
    law_concatenation_goes_part_by_part(first, parts.skip(1));
    let head = parts[0];
    assert(concatenated(parts).take(head.len() as int) =~= head);
}

} // verus!

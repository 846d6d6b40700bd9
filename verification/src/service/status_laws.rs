//! What holds of every status.
use crate::config::config_file;
use crate::error::AgentdReason;
use crate::os_text::{display_text, lemma_is_text, text_of};
use crate::paths::joined_path;
use crate::service::command_laws::law_plain_words_are_shown_as_they_are;
use crate::service::commands::{command_line_text, inspection, shell_word};
use crate::service::definition_laws::gives_text;
use crate::service::launchd::plist_definition;
use crate::service::status::{in_one_line, log_hint_text, solid_lines, status_of, StatusProbe};
use crate::service::{ServiceLayoutView, ServicePlatform, ServiceScope, ServiceSpecView};
use crate::text::{is_single_line, joined, line_seq, trimmed};
use crate::text_laws::{law_a_line_feed_ends_a_line, law_joining_goes_part_by_part};
use vstd::prelude::*;
use vstd::string::*;
use vstd::utf8::*;

verus! {

/// The logs of a unit are read by the very command that is shown for a closer look.
pub proof fn law_journal_hints_are_the_journal_command(
    layout: ServiceLayoutView,
    spec: ServiceSpecView,
    uid: u32,
)
    requires
        layout.platform == ServicePlatform::Systemd,
    ensures
        ({
            let look = inspection(layout.platform, spec, uid);
            log_hint_text(layout, spec) matches Ok(hint) && hint == command_line_text(
                look[look.len() - 1],
            )
        }),
{
    let look = inspection(layout.platform, spec, uid)[1];
    reveal_strlit("journalctl");
    reveal_strlit("journalctl ");
    reveal_strlit("--user");
    reveal_strlit("--user ");
    reveal_strlit("-u");
    reveal_strlit("-u ");
    reveal_strlit("-f");
    reveal_strlit(" -f");
    reveal_strlit("wist-agentd");
    reveal_strlit(" ");
    reveal_strlit("");
    law_plain_words_are_shown_as_they_are("journalctl"@);
    law_plain_words_are_shown_as_they_are("--user"@);
    law_plain_words_are_shown_as_they_are("-u"@);
    law_plain_words_are_shown_as_they_are("-f"@);
    law_plain_words_are_shown_as_they_are("wist-agentd"@);
    let f = |s: Seq<char>| shell_word(s);
    let words = (seq![look.program] + look.args).map_values(f);
    let sep = " "@;
    let tail = seq!["-u"@, "wist-agentd"@, "-f"@];
    lemma_join_three("-u"@, "wist-agentd"@, "-f"@, sep);
    match spec.scope {
        ServiceScope::System => {
            assert(words =~= seq!["journalctl"@] + tail);
            law_joining_goes_part_by_part(seq!["journalctl"@], tail, sep);
            assert(log_hint_text(layout, spec)->Ok_0 =~= command_line_text(look));
        },
        ServiceScope::User => {
            assert(words =~= seq!["journalctl"@] + (seq!["--user"@] + tail));
            law_joining_goes_part_by_part(seq!["journalctl"@], seq!["--user"@] + tail, sep);
            law_joining_goes_part_by_part(seq!["--user"@], tail, sep);
            assert(log_hint_text(layout, spec)->Ok_0 =~= command_line_text(look));
        },
    }
}

proof fn lemma_join_three(a: Seq<char>, b: Seq<char>, c: Seq<char>, sep: Seq<char>)
    ensures
        joined(seq![a, b, c], sep) == a + sep + b + sep + c,
{
    let two = seq![a, b];
    let three = seq![a, b, c];
    assert(three.drop_last() =~= two);
    assert(two.drop_last() =~= seq![a]);
    assert(joined(seq![a], sep) == a);
    assert(joined(two, sep) == a + sep + b);
}

/// The logs of a job are read from the file that its property list sends errors to. Without
/// a directory for output there is no hint.
pub proof fn law_log_hints_name_the_error_file(
    layout: ServiceLayoutView,
    spec: ServiceSpecView,
    home: Option<Seq<u8>>,
)
    requires
        layout.platform == ServicePlatform::Launchd,
    ensures
        layout.log_dir is Some ==> (exists|file: Seq<char>|
            log_hint_text(layout, spec) matches Ok(hint) && hint == #[trigger] ("tail -f "@ + file)
                && gives_text(
                plist_definition(spec, layout.log_dir, home),
                "StandardErrorPath"@,
                file,
            )),
        layout.log_dir is None ==> (log_hint_text(layout, spec) matches Err(e) && e.reason
            == AgentdReason::ServicePathUnresolved),
{
    crate::service::definition_laws::law_property_lists_say_where_the_job_runs(
        spec,
        layout.log_dir,
        home,
    );
    if layout.log_dir is Some {
        let file = display_text(joined_path(layout.log_dir->0, encode_utf8("agentd.err"@)));
        assert(log_hint_text(layout, spec)->Ok_0 == "tail -f "@ + file);
    }
}

/// Whether a directory of a status is one that the configuration names.
pub open spec fn is_dir_text(dir: Option<Seq<u8>>, text: Seq<char>) -> bool {
    dir matches Some(path) && text_of(path) == Some(text)
}

/// A status is what was found: the service, its files and whether they are there. Where the
/// configuration is there and was loaded, the status has its four directories, no error, and
/// says that a daemon runs exactly if the lock is held. Where it is there and could not be
/// loaded, the status has the error and knows neither directories nor whether a daemon runs.
/// Where it is not there, it knows none of these.
pub proof fn law_a_status_is_what_was_found(
    layout: ServiceLayoutView,
    spec: ServiceSpecView,
    probe: StatusProbe,
)
    ensures
        status_of(layout, spec, probe) matches Ok(status) ==> {
            &&& status.platform == layout.platform
            &&& status.scope == layout.scope
            &&& status.definition_path == layout.definition_path
            &&& status.definition_present == probe.definition_present
            &&& status.bin == spec.bin
            &&& status.bin_present == probe.bin_present
            &&& status.exec_bin == spec.exec_path()
            &&& status.exec_bin_present == probe.exec_bin_present
            &&& status.config_path == config_file(spec.config_dir)
            &&& status.config_present == probe.config_present
            &&& log_hint_text(layout, spec) matches Ok(hint) && status.log_hint == hint
            &&& match (probe.config_present, probe.loaded) {
                (true, Ok(dirs)) => {
                    &&& is_dir_text(status.root_dir, dirs.root_dir@)
                    &&& is_dir_text(status.run_dir, dirs.run_dir@)
                    &&& is_dir_text(status.state_dir, dirs.state_dir@)
                    &&& is_dir_text(status.log_dir, dirs.log_dir@)
                    &&& status.config_error is None
                    &&& probe.lock_held matches Ok(held) && status.running == Some(held)
                },
                (true, Err(chain)) => {
                    &&& status.root_dir is None && status.run_dir is None
                    &&& status.state_dir is None && status.log_dir is None
                    &&& status.config_error == Some(in_one_line(chain@))
                    &&& status.running is None
                },
                (false, _) => {
                    &&& status.root_dir is None && status.run_dir is None
                    &&& status.state_dir is None && status.log_dir is None
                    &&& status.config_error is None
                    &&& status.running is None
                },
            }
        },
        status_of(layout, spec, probe) is Ok <==> log_hint_text(layout, spec) is Ok && !(
        probe.config_present && probe.loaded is Ok && probe.lock_held is Err),
        status_of(layout, spec, probe) matches Err(e) ==> (probe.config_present && probe.loaded
            is Ok && probe.lock_held is Err ==> e.reason == AgentdReason::SystemError),
{
    if let Ok(dirs) = probe.loaded {
        lemma_is_text(encode_utf8(dirs.root_dir@), dirs.root_dir@);
        lemma_is_text(encode_utf8(dirs.run_dir@), dirs.run_dir@);
        lemma_is_text(encode_utf8(dirs.state_dir@), dirs.state_dir@);
        lemma_is_text(encode_utf8(dirs.log_dir@), dirs.log_dir@);
    }
}

proof fn lemma_solid_lines_first(first: Seq<char>, rest: Seq<Seq<char>>)
    ensures
        solid_lines(seq![first] + rest) == (if trimmed(first).len() > 0 {
            seq![trimmed(first)]
        } else {
            Seq::empty()
        }) + solid_lines(rest),
    decreases rest.len(),
{
    let all = seq![first] + rest;
    if rest.len() == 0 {
        assert(all =~= seq![first]);
        assert(all.drop_last() =~= Seq::<Seq<char>>::empty());
        assert(solid_lines(all.drop_last()) =~= Seq::<Seq<char>>::empty());
        assert(solid_lines(rest) =~= Seq::<Seq<char>>::empty());
        assert(all.last() == first);
        assert(solid_lines(all) =~= (if trimmed(first).len() > 0 {
            seq![trimmed(first)]
        } else {
            Seq::empty()
        }) + solid_lines(rest));
    } else {
        lemma_solid_lines_first(first, rest.drop_last());
        assert(all.drop_last() =~= seq![first] + rest.drop_last());
        assert(all.last() == rest.last());
        assert(solid_lines(all) =~= (if trimmed(first).len() > 0 {
            seq![trimmed(first)]
        } else {
            Seq::empty()
        }) + solid_lines(rest));
    }
}

proof fn lemma_solid_lines_not_empty(all: Seq<Seq<char>>)
    ensures
        joined(solid_lines(all), " / "@).len() == 0 <==> solid_lines(all).len() == 0,
    decreases all.len(),
{
    reveal_strlit(" / ");
    if all.len() > 0 {
        lemma_solid_lines_not_empty(all.drop_last());
        let before = solid_lines(all.drop_last());
        if trimmed(all.last()).len() > 0 {
            let whole = before.push(trimmed(all.last()));
            assert(whole.drop_last() =~= before);
            assert(whole.last() == trimmed(all.last()));
        }
    }
}

/// A text of several lines is shown in one: line by line without the white space around it,
/// blank lines left out, and a slash between what is left.
pub proof fn law_lines_are_put_into_one(line: Seq<char>, rest: Seq<char>)
    requires
        is_single_line(line),
    ensures
        in_one_line(line) == trimmed(line),
        in_one_line(line + seq!['\n'] + rest) == (if trimmed(line).len() == 0 {
            in_one_line(rest)
        } else if in_one_line(rest).len() == 0 {
            trimmed(line)
        } else {
            trimmed(line) + " / "@ + in_one_line(rest)
        }),
{
    law_a_line_feed_ends_a_line(line, rest);
    let lines = line_seq(rest);
    lemma_solid_lines_first(line, lines);
    lemma_solid_lines_first(line, Seq::empty());
    lemma_solid_lines_not_empty(lines);
    let one = seq![trimmed(line)];
    let none = Seq::<Seq<char>>::empty();
    assert(solid_lines(none) =~= none);
    assert(seq![line] + none =~= seq![line]);
    law_joining_goes_part_by_part(one, solid_lines(lines), " / "@);
    assert(one + none =~= one);
    assert(none + none =~= none);
    assert(none + solid_lines(lines) =~= solid_lines(lines));
    if solid_lines(lines).len() == 0 {
        assert(one + solid_lines(lines) =~= one);
    }
    if line.len() == 0 {
        assert(trimmed(line) =~= Seq::<char>::empty());
    } else if trimmed(line).len() == 0 {
        assert(trimmed(line) =~= Seq::<char>::empty());
    }
}

} // verus!

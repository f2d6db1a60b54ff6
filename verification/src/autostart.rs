//! Starting with the system: the entry under the `Run` key of the registry.

use vstd::prelude::*;
use vstd::slice::slice_subrange;
use crate::shell;
use crate::text;
use crate::wmi;
use crate::wmi::ProcessOutput;

verus! {

/// The registry key of the programs that start with the system, for the current user.
pub const RUN_KEY: &'static str = "HKCU\\Software\\Microsoft\\Windows\\CurrentVersion\\Run";

/// The name of the entry.
pub const APP_NAME: &'static str = "BrightnessControl";

// ---------------------------------------------------------------------------
// Reading the entry
// ---------------------------------------------------------------------------

/// A text without leading quotes, up to the next quote.
pub open spec fn unquoted(val: Seq<char>) -> Seq<char> {
    let rest = val.skip(text::first_pos(val, text::differs('"')));
    rest.take(text::first_pos(rest, text::equals('"')))
}

/// The program in the value of an entry: what is in quotes, or else the first word.
pub open spec fn program_of(val: Seq<char>) -> Seq<char> {
    if val.len() > 0 && val[0] == '"' {
        unquoted(val)
    } else {
        val.take(text::first_pos(val, text::white()))
    }
}

/// The program that a line of registry output names, if the line is that of the entry.
pub open spec fn entry_path(line: Seq<char>) -> Option<Seq<char>> {
    let t = text::trimmed(line);
    if APP_NAME@.is_prefix_of(t) {
        match text::find_text(t, "REG_SZ"@) {
            Some(i) => text::non_empty(
                program_of(text::trimmed(t.skip(i + "REG_SZ"@.len() as int))),
            ),
            None => None,
        }
    } else {
        None
    }
}

/// The program that the first line with one names.
pub open spec fn registered_in(lines: Seq<Seq<char>>) -> Option<Seq<char>>
    decreases lines.len(),
{
    if lines.len() == 0 {
        None
    } else if entry_path(lines[0]) is Some {
        entry_path(lines[0])
    } else {
        registered_in(lines.skip(1))
    }
}

/// The program that the output of the registry query names.
pub open spec fn registered_path(stdout: Seq<char>) -> Option<Seq<char>> {
    registered_in(text::lines_of(stdout))
}

fn program(val: &[char]) -> (r: String)
    ensures
        r@ == program_of(val@),
{
    if val.len() > 0 && val[0] == '"' {
        let mut i: usize = 0;
        while i < val.len() && val[i] == '"'
            invariant
                i <= val@.len(),
                forall|k: int| 0 <= k < i ==> val@[k] == '"',
            decreases val.len() - i,
        {
            i += 1;
        }
        proof {
            text::lemma_first_pos(val@, text::differs('"'), i as int);
        }
        let rest = slice_subrange(val, i, val.len());
        let end = text::find_char(rest, '"');
        text::string_of(slice_subrange(rest, 0, end))
    } else {
        let end = text::find_white(val);
        text::string_of(slice_subrange(val, 0, end))
    }
}

fn path_in_line(line: &[char]) -> (r: Option<String>)
    ensures
        text::text_of(r) == entry_path(line@),
{
    let t = text::trim(line);
    let name = text::chars_of(APP_NAME);
    if !text::starts_with(t, name.as_slice()) {
        return None;
    }
    let kind = text::chars_of("REG_SZ");
    match text::find_chars(t, kind.as_slice()) {
        Some(i) => {
            let end = t.len();
            let rest = slice_subrange(t, i + kind.len(), end);
            assert(rest@ =~= t@.skip(i + "REG_SZ"@.len() as int));
            text::non_empty_string(program(text::trim(rest)))
        },
        None => None,
    }
}

/// Reads the registered program out of the output of the registry query.
pub fn read_registered_path(stdout: &str) -> (r: Option<String>)
    ensures
        text::text_of(r) == registered_path(stdout@),
{
    let chars = text::chars_of(stdout);
    let lines = text::lines(chars.as_slice());
    let ghost pieces = text::pieces_of(lines@);
    let mut i: usize = 0;
    assert(pieces.skip(0) =~= pieces);
    while i < lines.len()
        invariant
            i <= lines@.len(),
            pieces == text::pieces_of(lines@),
            pieces == text::lines_of(stdout@),
            registered_in(pieces) == registered_in(pieces.skip(i as int)),
        decreases lines.len() - i,
    {
        assert(pieces.skip(i as int)[0] == lines@[i as int]@);
        assert(pieces.skip(i as int).skip(1) =~= pieces.skip(i + 1));
        let found = path_in_line(lines[i].as_slice());
        if found.is_some() {
            return found;
        }
        i += 1;
    }
    None
}

/// The registered program, given what the registry query left or why it could not be run. A query
/// that fails means that there is no entry.
pub fn get_registered_exe_path(output: Result<ProcessOutput, String>) -> (r: Result<
    Option<String>,
    String,
>)
    ensures
        match output {
            Ok(o) => {
                &&& r matches Ok(path)
                &&& text::text_of(path) == (if o.success {
                    registered_path(wmi::decoded(o.stdout@))
                } else {
                    None
                })
            },
            Err(e) => r matches Err(message) && message@ == "Failed to query registry: "@ + e@,
        },
{
    match output {
        Ok(o) => {
            if o.success {
                let stdout = wmi::utf8_lossy_string(o.stdout.as_slice());
                Ok(read_registered_path(stdout.as_str()))
            } else {
                Ok(None)
            }
        },
        Err(e) => Err(text::concat2("Failed to query registry: ", e.as_str())),
    }
}

// ---------------------------------------------------------------------------
// Keeping the entry up to date
// ---------------------------------------------------------------------------

/// Whether the registered program is another one than the running one.
pub open spec fn is_outdated(
    registered: Result<Option<String>, String>,
    current: Option<Seq<char>>,
) -> bool {
    match (registered, current) {
        (Ok(Some(path)), Some(exe)) => !text::same_ignoring_case(exe, path@),
        _ => false,
    }
}

/// Decides whether the entry has to be written anew, because there is one and it names another
/// program than the running one. Nothing is done where the running program is not known.
pub fn sync_autostart_path(
    registered: &Result<Option<String>, String>,
    current_exe: &Option<String>,
) -> (r: bool)
    ensures
        r == is_outdated(*registered, text::text_of(*current_exe)),
{
    match (registered, current_exe) {
        (Ok(Some(path)), Some(exe)) => !text::equals_ignoring_case(exe.as_str(), path.as_str()),
        _ => false,
    }
}

/// Decides whether the program starts with the system, and whether the entry has to be written
/// anew.
pub fn is_autostart_enabled(
    registered: Result<Option<String>, String>,
    current_exe: &Option<String>,
) -> (r: (Result<bool, String>, bool))
    ensures
        match registered {
            Ok(path) => r.0 == Ok::<bool, String>(path is Some),
            Err(e) => r.0 == Err::<bool, String>(e),
        },
        r.1 == is_outdated(registered, text::text_of(*current_exe)),
{
    let heal = sync_autostart_path(&registered, current_exe);
    match registered {
        Ok(Some(_)) => (Ok(true), heal),
        Ok(None) => (Ok(false), heal),
        Err(e) => (Err(e), heal),
    }
}

// ---------------------------------------------------------------------------
// Writing the entry
// ---------------------------------------------------------------------------

/// The value of the entry for a program. The argument makes it start in the tray.
pub open spec fn entry_value(exe: Seq<char>) -> Seq<char> {
    "\""@ + exe + "\" --autostart"@
}

/// The program that reads and writes the registry.
pub const REGISTRY_PROGRAM: &'static str = "reg.exe";

/// A request to `reg.exe`.
pub enum RegistryCommand {
    Query,
    Add { value: String },
    Delete,
}

/// The arguments of a request.
pub open spec fn command_args(command: RegistryCommand) -> Seq<Seq<char>> {
    match command {
        RegistryCommand::Query => seq!["query"@, RUN_KEY@, "/v"@, APP_NAME@],
        RegistryCommand::Add { value } => seq![
            "add"@,
            RUN_KEY@,
            "/v"@,
            APP_NAME@,
            "/t"@,
            "REG_SZ"@,
            "/d"@,
            value@,
            "/f"@,
        ],
        RegistryCommand::Delete => seq!["delete"@, RUN_KEY@, "/v"@, APP_NAME@, "/f"@],
    }
}

/// The arguments of a request to `reg.exe`.
pub fn registry_args(command: &RegistryCommand) -> (r: Vec<String>)
    ensures
        text::texts_of(r@) == command_args(*command),
{
    let mut args: Vec<String> = Vec::new();
    match command {
        RegistryCommand::Query => {
            args.push("query".to_string());
            args.push(RUN_KEY.to_string());
            args.push("/v".to_string());
            args.push(APP_NAME.to_string());
        },
        RegistryCommand::Add { value } => {
            args.push("add".to_string());
            args.push(RUN_KEY.to_string());
            args.push("/v".to_string());
            args.push(APP_NAME.to_string());
            args.push("/t".to_string());
            args.push("REG_SZ".to_string());
            args.push("/d".to_string());
            args.push(value.clone());
            args.push("/f".to_string());
        },
        RegistryCommand::Delete => {
            args.push("delete".to_string());
            args.push(RUN_KEY.to_string());
            args.push("/v".to_string());
            args.push(APP_NAME.to_string());
            args.push("/f".to_string());
        },
    }
    assert(text::texts_of(args@) =~= command_args(*command));
    args
}

/// Decides how to switch starting with the system on or off, given the running program or why it is
/// not known.
pub fn set_autostart(enabled: bool, current_exe: Result<String, String>) -> (r: Result<
    RegistryCommand,
    String,
>)
    ensures
        if enabled {
            match current_exe {
                Ok(exe) => r matches Ok(RegistryCommand::Add { value }) && value@ == entry_value(
                    exe@,
                ),
                Err(e) => r matches Err(message) && message@
                    == "Failed to retrieve current executable path: "@ + e@,
            }
        } else {
            r matches Ok(RegistryCommand::Delete)
        },
{
    if enabled {
        match current_exe {
            Ok(exe) => Ok(
                RegistryCommand::Add {
                    value: text::concat3("\"", exe.as_str(), "\" --autostart"),
                },
            ),
            Err(e) => Err(
                text::concat2("Failed to retrieve current executable path: ", e.as_str()),
            ),
        }
    } else {
        Ok(RegistryCommand::Delete)
    }
}

/// Judges the writing of the entry, given the exit status and the decoded error output.
pub fn judge_registry_add(success: bool, stderr: &str) -> (r: Result<(), String>)
    ensures
        if success {
            r is Ok
        } else {
            r matches Err(message) && message@ == "Failed to enable start on boot: "@ + stderr@
        },
{
    if success {
        Ok(())
    } else {
        Err(text::concat2("Failed to enable start on boot: ", stderr))
    }
}

/// Judges the writing of the entry, given what the process left or why it could not be started.
pub fn after_registry_add(output: Result<ProcessOutput, String>) -> (r: Result<(), String>)
    ensures
        match output {
            Ok(o) => if o.success {
                r is Ok
            } else {
                r matches Err(message) && message@ == "Failed to enable start on boot: "@
                    + wmi::decoded(o.stderr@)
            },
            Err(e) => r matches Err(message) && message@ == "Failed to execute reg add command: "@
                + e@,
        },
{
    match output {
        Ok(o) => {
            let stderr = wmi::utf8_lossy_string(o.stderr.as_slice());
            judge_registry_add(o.success, stderr.as_str())
        },
        Err(e) => Err(text::concat2("Failed to execute reg add command: ", e.as_str())),
    }
}

// ---------------------------------------------------------------------------
// Laws
// ---------------------------------------------------------------------------

/// The line that the registry query prints for the entry.
pub open spec fn registry_line(value: Seq<char>) -> Seq<char> {
    "    "@ + APP_NAME@ + "    REG_SZ    "@ + value
}

proof fn lemma_program_of_value(exe: Seq<char>)
    requires
        exe.len() > 0,
        !exe.contains('"'),
    ensures
        program_of(entry_value(exe)) == exe,
{
    reveal_strlit("\"");
    reveal_strlit("\" --autostart");
    let v = entry_value(exe);
    assert(v[0] == '"');
    assert(v[1] == exe[0]);
    assert(exe.contains(exe[0]));
    text::lemma_first_pos(v, text::differs('"'), 1);
    let rest = v.skip(1);
    assert forall|k: int| 0 <= k < exe.len() implies !text::equals('"')(#[trigger] rest[k]) by {
        assert(rest[k] == exe[k]);
        assert(exe.contains(exe[k]));
    }
    assert(rest[exe.len() as int] == '"');
    text::lemma_first_pos(rest, text::equals('"'), exe.len() as int);
    assert(rest.take(exe.len() as int) =~= exe);
}

/// What the entry was written with is what a read of its line gives back: the program, if its path
/// is not empty and has no quote.
pub proof fn entry_line_reads_back(exe: Seq<char>)
    requires
        exe.len() > 0,
        !exe.contains('"'),
    ensures
        entry_path(registry_line(entry_value(exe))) == Some(exe),
{
    reveal_strlit("\"");
    reveal_strlit("\" --autostart");
    reveal_strlit("    ");
    reveal_strlit("BrightnessControl");
    reveal_strlit("    REG_SZ    ");
    reveal_strlit("REG_SZ");
    let v = entry_value(exe);
    let line = registry_line(v);
    let core = APP_NAME@ + "    REG_SZ    "@ + v;
    assert(line =~= "    "@ + core + Seq::<char>::empty());
    assert(v.last() == 't');
    assert(core.last() == 't');
    text::lemma_trimmed("    "@, core, Seq::empty());
    assert(core.subrange(0, APP_NAME@.len() as int) =~= APP_NAME@);
    let at: int = 21;
    assert(APP_NAME@.len() == 17);
    assert forall|k: int| 0 <= k < at implies !"REG_SZ"@.is_prefix_of(#[trigger] core.skip(k)) by {
        if "REG_SZ"@.is_prefix_of(core.skip(k)) {
            assert(core.skip(k).subrange(0, 6)[0] == 'R');
            assert(core[k] == 'R');
            if k < 17 {
                assert(core[k] == APP_NAME@[k]);
            } else {
                assert(core[k] == "    REG_SZ    "@[k - 17]);
            }
        }
    }
    assert(core.skip(at).subrange(0, 6) =~= "REG_SZ"@);
    text::lemma_find_text_some(core, "REG_SZ"@, at);
    let rest = core.skip(at + 6);
    assert(rest =~= "    "@ + v + Seq::<char>::empty());
    text::lemma_trimmed("    "@, v, Seq::empty());
    lemma_program_of_value(exe);
}

/// The output of the registry query where the entry has a value.
pub open spec fn query_output(value: Seq<char>) -> Seq<char> {
    "\r\nHKEY_CURRENT_USER\\Software\\Microsoft\\Windows\\CurrentVersion\\Run\r\n"@ + registry_line(
        value,
    ) + "\r\n\r\n"@
}

/// What the entry was written with is what the registry query gives back: the program, if its path
/// is not empty and has neither a quote nor a line feed.
pub proof fn registered_reads_back(exe: Seq<char>)
    requires
        exe.len() > 0,
        !exe.contains('"'),
        !exe.contains('\n'),
    ensures
        registered_path(query_output(entry_value(exe))) == Some(exe),
{
    reveal_strlit("\r\nHKEY_CURRENT_USER\\Software\\Microsoft\\Windows\\CurrentVersion\\Run\r\n");
    reveal_strlit("\r\n\r\n");
    reveal_strlit("\"");
    reveal_strlit("\" --autostart");
    reveal_strlit("    ");
    reveal_strlit("BrightnessControl");
    reveal_strlit("    REG_SZ    ");
    let head = "\r\nHKEY_CURRENT_USER\\Software\\Microsoft\\Windows\\CurrentVersion\\Run\r\n"@;
    let line = registry_line(entry_value(exe));
    let out = query_output(entry_value(exe));
    let first = seq!['\r'];
    let second = head.subrange(2, head.len() - 1);
    let tail = seq!['\r', '\n'];
    let third = line.push('\r');
    assert(out =~= first.push('\n') + (second.push('\n') + (third.push('\n') + tail)));
    text::lemma_lines_step(first, second.push('\n') + (third.push('\n') + tail));
    text::lemma_lines_step(second, third.push('\n') + tail);
    assert forall|k: int| 0 <= k < third.len() implies third[k] != '\n' by {
        let v = entry_value(exe);
        if k < 4 {
        } else if k < 21 {
            assert(third[k] == APP_NAME@[k - 4]);
        } else if k < 35 {
            assert(third[k] == "    REG_SZ    "@[k - 21]);
        } else if k < 35 + v.len() {
            let j = k - 35;
            assert(third[k] == v[j]);
            if 1 <= j < 1 + exe.len() {
                assert(v[j] == exe[j - 1]);
                assert(exe.contains(exe[j - 1]));
            } else if j > 0 {
                assert(v[j] == "\" --autostart"@[j - 1 - exe.len()]);
            }
        }
    }
    text::lemma_lines_step(third, tail);
    let lines = text::lines_of(out);
    assert(lines[0] =~= Seq::<char>::empty());
    assert(lines[1] =~= second.drop_last());
    assert(lines[2] =~= line);
    text::lemma_trimmed(Seq::empty(), second.drop_last(), Seq::empty());
    assert(Seq::<char>::empty() + second.drop_last() + Seq::<char>::empty() =~= second.drop_last());
    assert(entry_path(lines[0]) is None);
    assert(entry_path(lines[1]) is None) by {
        let t = text::trimmed(lines[1]);
        if APP_NAME@.is_prefix_of(t) {
            assert(t.subrange(0, 17)[0] == 'B');
            assert(t[0] == 'H');
        }
    }
    entry_line_reads_back(exe);
    assert(lines.skip(1)[0] == lines[1]);
    assert(lines.skip(1).skip(1)[0] == lines[2]);
    reveal_with_fuel(registered_in, 4);
}

/// Once the entry was written for the running program, a read finds it there and it is up to date:
/// it is not written again and again.
pub proof fn written_entry_is_current(registered: Result<Option<String>, String>, exe: Seq<char>)
    requires
        exe.len() > 0,
        !exe.contains('"'),
        !exe.contains('\n'),
        registered matches Ok(path) && text::text_of(path) == registered_path(
            query_output(entry_value(exe)),
        ),
    ensures
        registered matches Ok(Some(_)),
        !is_outdated(registered, Some(exe)),
{
    registered_reads_back(exe);
}

/// A launch by the entry starts in the tray: the value of the entry is the quoted program, a space,
/// and an argument that asks for a start in the background.
pub proof fn entry_asks_for_background(exe: Seq<char>)
    ensures
        ({
            let value = entry_value(exe);
            let n = exe.len() as int + 2;
            &&& value.take(n) == "\""@ + exe + "\""@
            &&& value.len() > n
            &&& value[n] == ' '
            &&& shell::asks_for_background(value.skip(n + 1))
        }),
{
    reveal_strlit("\"");
    reveal_strlit("\" --autostart");
    reveal_strlit("--autostart");
    let value = entry_value(exe);
    let n = exe.len() as int + 2;
    assert(value.take(n) =~= "\""@ + exe + "\""@);
    assert(value.skip(n + 1) =~= "--autostart"@);
}

/// The entry is left as it is only if the registered path and that of the running program are
/// equally long and equal character by character, up to the case of ASCII letters. Wherever both are
/// known and differ in more than that, be it in their folders, the entry is written anew.
pub proof fn moved_programs_are_outdated(path: String, exe: Seq<char>)
    ensures
        is_outdated(Ok(Some(path)), Some(exe)) <==> {
            ||| path@.len() != exe.len()
            ||| exists|i: int|
                #![trigger exe[i]]
                0 <= i < exe.len() && !{
                    ||| exe[i] == path@[i]
                    ||| 'a' <= exe[i] <= 'z' && path@[i] as u32 == exe[i] as u32 - 32
                    ||| 'a' <= path@[i] <= 'z' && exe[i] as u32 == path@[i] as u32 - 32
                }
        },
{
    text::case_is_ignored_character_by_character(exe, path@);
}

/// Nothing is written anew where there is no entry, where it could not be read, or where the running
/// program is not known.
pub proof fn nothing_to_update(
    registered: Result<Option<String>, String>,
    current: Option<Seq<char>>,
)
    ensures
        current is None ==> !is_outdated(registered, current),
        registered is Err ==> !is_outdated(registered, current),
        registered matches Ok(None) ==> !is_outdated(registered, current),
{
}

/// The program of a quoted value is what stands in the quotes, with its spaces; that of another value
/// is its first word. What follows makes no difference.
pub proof fn programs_are_quoted_or_words(program: Seq<char>, rest: Seq<char>)
    requires
        program.len() > 0,
        !program.contains('"'),
    ensures
        program_of(seq!['"'] + program + seq!['"'] + rest) == program,
        (forall|i: int| 0 <= i < program.len() ==> !text::is_white_space(#[trigger] program[i])) ==> {
            &&& program_of(program) == program
            &&& program_of(program + seq![' '] + rest) == program
        },
{
    let v = seq!['"'] + program + seq!['"'] + rest;
    assert(program.contains(program[0]));
    assert(v[1] == program[0]);
    text::lemma_first_pos(v, text::differs('"'), 1);
    let t = v.skip(1);
    let n = program.len() as int;
    assert forall|k: int| 0 <= k < n implies !text::equals('"')(#[trigger] t[k]) by {
        assert(t[k] == program[k]);
        assert(program.contains(program[k]));
    }
    assert(t[n] == '"');
    text::lemma_first_pos(t, text::equals('"'), n);
    assert(t.take(n) =~= program);
    if forall|i: int| 0 <= i < program.len() ==> !text::is_white_space(#[trigger] program[i]) {
        text::lemma_first_pos(program, text::white(), n);
        assert(program.take(n) =~= program);
        let w = program + seq![' '] + rest;
        assert(w[0] == program[0]);
        assert forall|k: int| 0 <= k < n implies !text::white()(#[trigger] w[k]) by {
            assert(w[k] == program[k]);
        }
        assert(w[n] == ' ');
        text::lemma_first_pos(w, text::white(), n);
        assert(w.take(n) =~= program);
    }
}

/// The line of the entry names the program of its value, whatever the value is.
pub proof fn lines_name_the_program(value: Seq<char>)
    requires
        value.len() > 0,
        !text::is_white_space(value[0]),
        !text::is_white_space(value.last()),
    ensures
        entry_path(registry_line(value)) == (if program_of(value).len() > 0 {
            Some(program_of(value))
        } else {
            None
        }),
{
    reveal_strlit("    ");
    reveal_strlit("BrightnessControl");
    reveal_strlit("    REG_SZ    ");
    reveal_strlit("REG_SZ");
    let line = registry_line(value);
    let core = APP_NAME@ + "    REG_SZ    "@ + value;
    assert(line =~= "    "@ + core + Seq::<char>::empty());
    assert(core.last() == value.last());
    text::lemma_trimmed("    "@, core, Seq::empty());
    assert(core.subrange(0, APP_NAME@.len() as int) =~= APP_NAME@);
    let at: int = 21;
    assert(APP_NAME@.len() == 17);
    assert forall|k: int| 0 <= k < at implies !"REG_SZ"@.is_prefix_of(#[trigger] core.skip(k)) by {
        if "REG_SZ"@.is_prefix_of(core.skip(k)) {
            assert(core.skip(k).subrange(0, 6)[0] == 'R');
            assert(core[k] == 'R');
            if k < 17 {
                assert(core[k] == APP_NAME@[k]);
            } else {
                assert(core[k] == "    REG_SZ    "@[k - 17]);
            }
        }
    }
    assert(core.skip(at).subrange(0, 6) =~= "REG_SZ"@);
    text::lemma_find_text_some(core, "REG_SZ"@, at);
    let rest = core.skip(at + 6);
    assert(rest =~= "    "@ + value + Seq::<char>::empty());
    text::lemma_trimmed("    "@, value, Seq::empty());
}

/// Lines that do not begin with the name of the entry name nothing, and neither do lines of the entry
/// that hold no text value.
pub proof fn other_lines_name_nothing(line: Seq<char>)
    ensures
        !"BrightnessControl"@.is_prefix_of(text::trimmed(line)) ==> entry_path(line) is None,
        text::find_text(text::trimmed(line), "REG_SZ"@) is None ==> entry_path(line) is None,
        entry_path(line) matches Some(path) ==> path.len() > 0,
{
}

/// The first line that names a program decides.
pub proof fn first_naming_line_decides(lines: Seq<Seq<char>>, i: int)
    requires
        0 <= i <= lines.len(),
        forall|k: int| 0 <= k < i ==> entry_path(#[trigger] lines[k]) is None,
        i < lines.len() ==> entry_path(lines[i]) is Some,
    ensures
        registered_in(lines) == (if i < lines.len() {
            entry_path(lines[i])
        } else {
            None
        }),
    decreases lines.len(),
{
    if i > 0 {
        let t = lines.skip(1);
        assert(entry_path(lines[0]) is None);
        assert forall|k: int| 0 <= k < i - 1 implies entry_path(#[trigger] t[k]) is None by {
            assert(t[k] == lines[k + 1]);
        }
        first_naming_line_decides(t, i - 1);
    }
}

/// All requests go to the entry of the program under the key of the current user. A write carries the
/// value as it is, as text, and asks nothing back.
pub proof fn requests_go_to_the_entry(value: String)
    ensures
        ({
            let key = "HKCU\\Software\\Microsoft\\Windows\\CurrentVersion\\Run"@;
            let name = "BrightnessControl"@;
            &&& command_args(RegistryCommand::Query) == seq!["query"@, key, "/v"@, name]
            &&& command_args(RegistryCommand::Delete) == seq!["delete"@, key, "/v"@, name, "/f"@]
            &&& command_args(RegistryCommand::Add { value }) == seq![
                "add"@,
                key,
                "/v"@,
                name,
                "/t"@,
                "REG_SZ"@,
                "/d"@,
                value@,
                "/f"@,
            ]
        }),
{
}

/// The output of the query is searched line by line, and the first line that names a program decides.
pub proof fn output_is_searched_line_by_line(before: Seq<char>, line: Seq<char>, after: Seq<char>)
    requires
        before.len() > 0 ==> before.last() == '\n',
        !line.contains('\n'),
        forall|k: int|
            0 <= k < text::lines_of(before).len() ==> entry_path(
                #[trigger] text::lines_of(before)[k],
            ) is None,
        entry_path(line) is Some,
    ensures
        registered_path(before + line + seq!['\r', '\n'] + after) == entry_path(line),
        registered_path(before) is None,
{
    text::lines_end_at_line_feeds(line, after);
    let rest = line + seq!['\r', '\n'] + after;
    text::lemma_lines_append(before, rest);
    assert(before + line + seq!['\r', '\n'] + after =~= before + rest);
    let a = text::lines_of(before);
    let all = a + (seq![line] + text::lines_of(after));
    assert forall|k: int| 0 <= k < a.len() implies entry_path(#[trigger] all[k]) is None by {
        assert(all[k] == a[k]);
    }
    assert(all[a.len() as int] == line);
    first_naming_line_decides(all, a.len() as int);
    first_naming_line_decides(a, a.len() as int);
}

} // verus!

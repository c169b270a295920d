//! What starts the daemon on login, and how a process is told to be the user's.

use crate::autostart::{
    init_of, is_start_file, marker, names_supervisor, program_of, supervisor_name, uid_from,
    unit_text, words, InitSigns, InitSystem, StartFile,
};
use crate::paths::below;
use crate::text::{decimal, has_prefix, is_space, lowercase, trim};
use crate::text_laws::{law_decimals_are_read_back, lemma_decimal_digits};
use vstd::prelude::*;

verus! {

/// The system of the first process is used, and only where it serves the user; otherwise the
/// desktop starts the daemon.
pub proof fn law_first_process_decides(signs: InitSigns)
    ensures
        ({
            let used = init_of(signs);
            let first = lowercase(trim(signs.first_process@));
            &&& used != InitSystem::Xdg ==> first == used.word()
            &&& first == "systemd"@ ==> (used == InitSystem::Systemd <==> signs.systemd_answers)
            &&& first == "dinit"@ ==> (used == InitSystem::Dinit <==> signs.dinit_socket
                || signs.dinit_answers)
            &&& first == "runit"@ ==> (used == InitSystem::Runit <==> signs.runit_folder
                && signs.runit_runs)
        }),
{
    reveal_strlit("systemd");
    reveal_strlit("runit");
    reveal_strlit("dinit");
    assert("systemd"@.len() == 7 && "runit"@.len() == 5 && "dinit"@.len() == 5);
    assert("runit"@[0] == 'r' && "dinit"@[0] == 'd');
}

/// The file that starts the daemon is what tells that it is started: it is the marker itself, or
/// the marker bears its name below the same folder, or the marker is the link to it.
pub proof fn law_marker_tells_of_the_start_file(
    f: StartFile,
    init: InitSystem,
    config: Seq<char>,
    data: Seq<char>,
    exe: Seq<char>,
)
    requires
        is_start_file(f, init, config, data, exe),
    ensures
        ({
            let sign = below(config, marker(init));
            match init {
                InitSystem::Xdg => sign == f.folder@ + "/"@ + f.name@,
                InitSystem::Systemd => sign == f.folder@ + "/default.target.wants/"@ + f.name@,
                InitSystem::Dinit => sign == f.folder@ + "/boot.d/"@ + f.name@,
                InitSystem::Runit => f.link matches Some(l) && l@ == sign,
            }
        }),
{
    reveal_strlit("/");
    match init {
        InitSystem::Xdg => {
            reveal_strlit("autostart/monsoon.desktop");
            reveal_strlit("autostart");
            reveal_strlit("monsoon.desktop");
            assert("autostart/monsoon.desktop"@ =~= "autostart"@ + "/"@ + "monsoon.desktop"@);
            assert(below(config, marker(init)) =~= f.folder@ + "/"@ + f.name@);
        },
        InitSystem::Systemd => {
            reveal_strlit("systemd/user/default.target.wants/monsoon.service");
            reveal_strlit("systemd/user");
            reveal_strlit("/default.target.wants/");
            reveal_strlit("monsoon.service");
            assert("systemd/user/default.target.wants/monsoon.service"@ =~= "systemd/user"@
                + "/default.target.wants/"@ + "monsoon.service"@);
            assert(below(config, marker(init)) =~= f.folder@ + "/default.target.wants/"@
                + f.name@);
        },
        InitSystem::Dinit => {
            reveal_strlit("dinit.d/boot.d/monsoon");
            reveal_strlit("dinit.d");
            reveal_strlit("/boot.d/");
            reveal_strlit("monsoon");
            assert("dinit.d/boot.d/monsoon"@ =~= "dinit.d"@ + "/boot.d/"@ + "monsoon"@);
            assert(below(config, marker(init)) =~= f.folder@ + "/boot.d/"@ + f.name@);
        },
        InitSystem::Runit => {},
    }
}

/// What stands before the program in the line that runs it.
pub open spec fn run_key(init: InitSystem) -> Seq<char> {
    match init {
        InitSystem::Systemd => "ExecStart="@,
        InitSystem::Runit => "exec "@,
        InitSystem::Dinit => "command = "@,
        InitSystem::Xdg => "Exec="@,
    }
}

/// The text has a line that begins with `key` and goes on with `command` and then with `rest`.
pub open spec fn has_line(text: Seq<char>, key: Seq<char>, command: Seq<char>, rest: Seq<char>) -> bool {
    exists|before: Seq<char>, after: Seq<char>|
        text == #[trigger] (before + "\n"@ + key + command + rest + "\n"@ + after)
}

/// A text that was put together in this way has the line.
proof fn lemma_has_line(
    text: Seq<char>,
    before: Seq<char>,
    key: Seq<char>,
    command: Seq<char>,
    rest: Seq<char>,
    after: Seq<char>,
)
    requires
        text =~= before + "\n"@ + key + command + rest + "\n"@ + after,
    ensures
        has_line(text, key, command, rest),
{
}

/// The file that starts the daemon runs the program quietly, as a line of its own.
pub proof fn law_start_file_runs_the_daemon(
    f: StartFile,
    init: InitSystem,
    config: Seq<char>,
    data: Seq<char>,
    exe: Seq<char>,
)
    requires
        is_start_file(f, init, config, data, exe),
    ensures
        init != InitSystem::Runit ==> has_line(
            f.content@,
            run_key(init),
            exe,
            " daemon --quiet"@,
        ),
        init == InitSystem::Runit ==> f.executable && has_line(
            f.content@,
            run_key(init),
            exe,
            " daemon --quiet 2>&1"@,
        ),
        init != InitSystem::Runit ==> !f.executable,
{
    let q = " daemon --quiet"@;
    reveal_strlit("\n");
    reveal_strlit(" daemon --quiet");
    match init {
        InitSystem::Systemd => {
            reveal_strlit(
                "[Unit]\nDescription=monsoon daemon\nAfter=network.target\n\n[Service]\nExecStart=",
            );
            reveal_strlit(
                " daemon --quiet\nRestart=on-failure\n\n[Install]\nWantedBy=default.target\n",
            );
            reveal_strlit("ExecStart=");
            let a = "[Unit]\nDescription=monsoon daemon\nAfter=network.target\n\n[Service]\nExecStart="@;
            let b = " daemon --quiet\nRestart=on-failure\n\n[Install]\nWantedBy=default.target\n"@;
            lemma_frames(a, b, exe, "ExecStart="@, q);
        },
        InitSystem::Runit => {
            reveal_strlit("#!/bin/sh\nexec ");
            reveal_strlit(" daemon --quiet 2>&1\n");
            reveal_strlit(" daemon --quiet 2>&1");
            reveal_strlit("exec ");
            lemma_frames(
                "#!/bin/sh\nexec "@,
                " daemon --quiet 2>&1\n"@,
                exe,
                "exec "@,
                " daemon --quiet 2>&1"@,
            );
        },
        InitSystem::Dinit => {
            reveal_strlit("type = process\ncommand = ");
            reveal_strlit(" daemon --quiet\nrestart = true\nlogfile = /dev/null\n");
            reveal_strlit("command = ");
            lemma_frames(
                "type = process\ncommand = "@,
                " daemon --quiet\nrestart = true\nlogfile = /dev/null\n"@,
                exe,
                "command = "@,
                q,
            );
        },
        InitSystem::Xdg => {
            reveal_strlit("[Desktop Entry]\nType=Application\nName=monsoon\nExec=");
            reveal_strlit(
                " daemon --quiet\nHidden=false\nNoDisplay=false\nX-GNOME-Autostart-enabled=true\n",
            );
            reveal_strlit("Exec=");
            lemma_frames(
                "[Desktop Entry]\nType=Application\nName=monsoon\nExec="@,
                " daemon --quiet\nHidden=false\nNoDisplay=false\nX-GNOME-Autostart-enabled=true\n"@,
                exe,
                "Exec="@,
                q,
            );
        },
    }
}

/// A text whose frame ends and goes on as wanted has the line.
proof fn lemma_frames(
    a: Seq<char>,
    b: Seq<char>,
    exe: Seq<char>,
    key: Seq<char>,
    rest: Seq<char>,
)
    requires
        a.len() > key.len(),
        b.len() > rest.len(),
        a.skip(a.len() - key.len()) =~= key,
        a[a.len() - key.len() - 1] == '\n',
        b.take(rest.len() as int) =~= rest,
        b[rest.len() as int] == '\n',
    ensures
        has_line(a + exe + b, key, exe, rest),
{
    reveal_strlit("\n");
    let before = a.take(a.len() - key.len() - 1);
    let after = b.skip(rest.len() as int + 1);
    assert(a =~= before + "\n"@ + key) by {
        assert forall|i: int| 0 <= i < a.len() implies a[i] == (before + "\n"@ + key)[i] by {
            if i >= a.len() - key.len() {
                assert(a.skip(a.len() - key.len())[i - (a.len() - key.len())] == a[i]);
            }
        }
    }
    assert(b =~= rest + "\n"@ + after) by {
        assert forall|i: int| 0 <= i < b.len() implies b[i] == (rest + "\n"@ + after)[i] by {
            if i < rest.len() {
                assert(b.take(rest.len() as int)[i] == b[i]);
            }
        }
    }
    lemma_has_line(a + exe + b, before, key, exe, rest, after);
}

/// The service that is installed by hand runs the daemon and waits until it is ready.
pub proof fn law_service_runs_the_daemon(exe: Seq<char>)
    ensures
        has_line(unit_text(exe), "ExecStart="@, exe, " daemon"@),
        has_line(unit_text(exe), "Type="@, "notify"@, Seq::empty()),
{
    let a = "[Unit]\nDescription=monsoon torrent daemon\nAfter=network.target\n\n[Service]\nType=notify\nNotifyAccess=main\nExecStart="@;
    let b = " daemon\nRestart=on-failure\nRestartSec=5\n\n[Install]\nWantedBy=default.target\n"@;
    reveal_strlit(
        "[Unit]\nDescription=monsoon torrent daemon\nAfter=network.target\n\n[Service]\nType=notify\nNotifyAccess=main\nExecStart=",
    );
    reveal_strlit(
        " daemon\nRestart=on-failure\nRestartSec=5\n\n[Install]\nWantedBy=default.target\n",
    );
    reveal_strlit("ExecStart=");
    reveal_strlit(" daemon");
    reveal_strlit("Type=");
    reveal_strlit("notify");
    reveal_strlit("\n");
    reveal_strlit("[Unit]\nDescription=monsoon torrent daemon\nAfter=network.target\n\n[Service]");
    reveal_strlit("NotifyAccess=main\nExecStart=");
    lemma_frames(a, b, exe, "ExecStart="@, " daemon"@);
    let head = "[Unit]\nDescription=monsoon torrent daemon\nAfter=network.target\n\n[Service]"@;
    let tail = "NotifyAccess=main\nExecStart="@;
    assert(a =~= head + "\n"@ + "Type="@ + "notify"@ + "\n"@ + tail);
    lemma_has_line(
        unit_text(exe),
        head,
        "Type="@,
        "notify"@,
        Seq::empty(),
        tail + exe + b,
    );
}

// ----- whose process it is -----

/// A word: characters, none of them white space.
pub open spec fn is_word(w: Seq<char>) -> bool {
    &&& w.len() > 0
    &&& forall|i: int| 0 <= i < w.len() ==> !is_space(#[trigger] w[i])
}

/// A word by itself is the only word of the text.
pub proof fn law_a_word_is_one_word(w: Seq<char>)
    requires
        is_word(w),
    ensures
        words(w) == seq![w],
    decreases w.len(),
{
    let init = w.drop_last();
    assert(w.last() == w[w.len() - 1]);
    if init.len() == 0 {
        assert(words(init) =~= Seq::empty());
        assert(w =~= seq![w.last()]);
        assert(words(w) =~= seq![w]);
    } else {
        assert(init.last() == w[w.len() - 2]);
        assert forall|i: int| 0 <= i < init.len() implies !is_space(#[trigger] init[i]) by {
            assert(w[i] == init[i]);
        }
        law_a_word_is_one_word(init);
        assert(init.push(w.last()) =~= w);
        assert(words(w) =~= seq![w]);
    }
}

/// White space parts words: the words of two texts with a space between them are those of the
/// one and then those of the other.
pub proof fn law_spaces_part_words(a: Seq<char>, c: char, b: Seq<char>)
    requires
        is_space(c),
    ensures
        words(a.push(c) + b) == words(a) + words(b),
    decreases b.len(),
{
    let s = a.push(c) + b;
    if b.len() == 0 {
        assert(s =~= a.push(c));
        assert(s.drop_last() =~= a);
        assert(words(s) =~= words(a) + words(b));
    } else {
        let init = b.drop_last();
        law_spaces_part_words(a, c, init);
        assert(s.drop_last() =~= a.push(c) + init);
        assert(s.last() == b.last());
        let before = words(a) + words(init);
        if !is_space(b.last()) {
            if init.len() > 0 {
                assert(s.drop_last().last() == init.last());
                if !is_space(init.last()) {
                    lemma_open_word(init);
                    assert(before.drop_last() =~= words(a) + words(init).drop_last());
                }
            } else {
                assert(s.drop_last().last() == c);
            }
        }
        assert(words(s) =~= words(a) + words(b));
    }
}

/// A text that ends in a word has one.
proof fn lemma_open_word(s: Seq<char>)
    requires
        s.len() > 0,
        !is_space(s.last()),
    ensures
        words(s).len() > 0,
    decreases s.len(),
{
    let init = s.drop_last();
    if init.len() > 0 && !is_space(init.last()) {
        lemma_open_word(init);
    }
}

/// The program of a command line is all before the first zero.
pub proof fn law_program_ends_at_the_first_zero(program: Seq<u8>, rest: Seq<u8>)
    requires
        !program.contains(0u8),
    ensures
        program_of(program) == program,
        program_of(program.push(0) + rest) == program,
    decreases program.len(),
{
    let all = program.push(0) + rest;
    if program.len() == 0 {
        assert(all[0] == 0);
        assert(program_of(program) =~= program);
        assert(program_of(all) =~= program);
    } else {
        let fewer = program.skip(1);
        assert(program[0] != 0) by {
            assert(program.contains(program[0]));
        }
        assert(!fewer.contains(0u8)) by {
            if fewer.contains(0u8) {
                let i = fewer.index_of(0u8);
                assert(program[i + 1] == 0);
            }
        }
        law_program_ends_at_the_first_zero(fewer, rest);
        assert(all.skip(1) =~= fewer.push(0) + rest);
        assert(seq![program[0]] + fewer =~= program);
        assert(program_of(all) == program);
    }
}

/// A process supervises runit services where its program is called so, in whatever folder it
/// lies and whatever it was started with.
pub proof fn law_supervisor_is_known_by_its_name(folder: Seq<u8>, rest: Seq<u8>, i: int)
    requires
        !folder.contains(0u8),
        0 <= i < 8,
    ensures
        supervisor_name().len() == "runsvdir"@.len(),
        supervisor_name()[i] == "runsvdir"@[i] as u8,
        names_supervisor((folder + supervisor_name()).push(0) + rest),
        names_supervisor(folder.push(0) + rest) ==> exists|k: int|
            0 <= k && k + 8 <= folder.len() && #[trigger] folder.subrange(k, k + 8)
                == supervisor_name(),
{
    reveal_strlit("runsvdir");
    let name = supervisor_name();
    let program = folder + name;
    assert(!program.contains(0u8)) by {
        if program.contains(0u8) {
            let j = program.index_of(0u8);
            if j < folder.len() {
                assert(folder[j] == 0);
            } else {
                assert(name[j - folder.len()] == 0);
            }
        }
    }
    law_program_ends_at_the_first_zero(program, rest);
    law_program_ends_at_the_first_zero(folder, rest);
    let at = folder.len() as int;
    assert(program.subrange(at, at + 8) =~= name);
}

/// The effective user is the second number of the first line that tells of users.
pub proof fn law_effective_user_is_the_second(
    lines: Seq<Seq<char>>,
    from: int,
    k: int,
    first: Seq<char>,
    user: u32,
    rest: Seq<char>,
)
    requires
        0 <= from <= k < lines.len(),
        forall|j: int| from <= j < k ==> !has_prefix(#[trigger] lines[j], "Uid:"@),
        is_word(first),
        lines[k] == "Uid:"@.push('\t') + (first.push('\t') + (decimal(user as int).push('\t')
            + rest)),
    ensures
        uid_from(lines, from) == Some(user as int),
    decreases k - from,
{
    if from < k {
        assert(!has_prefix(lines[from], "Uid:"@));
        law_effective_user_is_the_second(lines, from + 1, k, first, user, rest);
    } else {
        let line = lines[k];
        let number = decimal(user as int);
        reveal_strlit("Uid:");
        assert(line.subrange(0, 4) =~= "Uid:"@);
        lemma_decimal_digits(user as int);
        assert(is_word(number));
        assert(is_word("Uid:"@));
        law_a_word_is_one_word("Uid:"@);
        law_a_word_is_one_word(first);
        law_a_word_is_one_word(number);
        law_spaces_part_words(number, '\t', rest);
        law_spaces_part_words(first, '\t', number.push('\t') + rest);
        law_spaces_part_words("Uid:"@, '\t', first.push('\t') + (number.push('\t') + rest));
        assert(words(line)[2] == number);
        law_decimals_are_read_back(user as int);
    }
}

} // verus!

//! Starting the daemon when the user logs in.

use crate::paths::{below, path_below};
use crate::integers::{parse_u64, written_within};
use crate::text::{
    chars_of, concat3, is_space, lowercase, same, split, split_on, starts_with, has_prefix, texts,
    trim, trimmed,
};
use vstd::prelude::*;

verus! {

/// What starts the services of a user.
#[derive(Debug, Clone, Copy, PartialEq, Eq, Structural)]
pub enum InitSystem {
    Systemd,
    Runit,
    Dinit,
    Xdg,
}

impl InitSystem {
    /// The word by which the system is known.
    pub open spec fn word(self) -> Seq<char> {
        match self {
            InitSystem::Systemd => "systemd"@,
            InitSystem::Runit => "runit"@,
            InitSystem::Dinit => "dinit"@,
            InitSystem::Xdg => "xdg"@,
        }
    }

    /// The word by which the system is known.
    pub fn name(self) -> (r: &'static str)
        ensures
            r@ == self.word(),
    {
        match self {
            InitSystem::Systemd => "systemd",
            InitSystem::Runit => "runit",
            InitSystem::Dinit => "dinit",
            InitSystem::Xdg => "xdg",
        }
    }
}

/// The system that a word stands for.
pub open spec fn init_named(word: Seq<char>) -> Option<InitSystem> {
    if word == "systemd"@ {
        Some(InitSystem::Systemd)
    } else if word == "runit"@ {
        Some(InitSystem::Runit)
    } else if word == "dinit"@ {
        Some(InitSystem::Dinit)
    } else if word == "xdg"@ {
        Some(InitSystem::Xdg)
    } else {
        None
    }
}

/// The system that a stored word stands for.
pub fn parse_init(text: &str) -> (r: Option<InitSystem>)
    ensures
        r == init_named(trim(text@)),
{
    let bare = trimmed(text);
    let word = bare.as_str();
    if same(word, "systemd") {
        Some(InitSystem::Systemd)
    } else if same(word, "runit") {
        Some(InitSystem::Runit)
    } else if same(word, "dinit") {
        Some(InitSystem::Dinit)
    } else if same(word, "xdg") {
        Some(InitSystem::Xdg)
    } else {
        None
    }
}

/// What is stored of the system is read back.
pub proof fn law_stored_init_is_read_back(init: InitSystem)
    ensures
        init_named(trim(init.word())) == Some(init),
{
    reveal_strlit("systemd");
    reveal_strlit("runit");
    reveal_strlit("dinit");
    reveal_strlit("xdg");
    let w = init.word();
    assert(crate::text::trim_front(w) == w);
    assert(crate::text::trim_back(w) == w);
    assert("systemd"@.len() == 7 && "runit"@.len() == 5 && "dinit"@.len() == 5 && "xdg"@.len() == 3);
    assert("runit"@[0] == 'r' && "dinit"@[0] == 'd');
}

/// What a look at the machine found.
#[derive(Debug, Clone, PartialEq, Eq)]
pub struct InitSigns {
    /// the name of the first process
    pub first_process: String,
    /// whether the user's systemd answers
    pub systemd_answers: bool,
    /// whether the user's dinit has a socket
    pub dinit_socket: bool,
    /// whether the user's dinit answers
    pub dinit_answers: bool,
    /// whether the user has a folder for runit services
    pub runit_folder: bool,
    /// whether the user's runit is running
    pub runit_runs: bool,
}

/// The system that the signs point to: the one of the first process, if it serves the user.
pub open spec fn init_of(signs: InitSigns) -> InitSystem {
    let first = lowercase(trim(signs.first_process@));
    if first == "systemd"@ && signs.systemd_answers {
        InitSystem::Systemd
    } else if first == "dinit"@ && (signs.dinit_socket || signs.dinit_answers) {
        InitSystem::Dinit
    } else if first == "runit"@ && signs.runit_folder && signs.runit_runs {
        InitSystem::Runit
    } else {
        InitSystem::Xdg
    }
}

/// The system that the signs point to.
pub fn probe(signs: &InitSigns) -> (r: InitSystem)
    ensures
        r == init_of(*signs),
{
    proof {
        reveal_strlit("systemd");
        reveal_strlit("runit");
        reveal_strlit("dinit");
        assert("systemd"@.len() == 7 && "runit"@.len() == 5 && "dinit"@.len() == 5);
        assert("runit"@[0] == 'r' && "dinit"@[0] == 'd');
    }
    let bare = trimmed(signs.first_process.as_str());
    let first = bare.as_str().to_lowercase();
    if same(first.as_str(), "systemd") {
        if signs.systemd_answers {
            InitSystem::Systemd
        } else {
            InitSystem::Xdg
        }
    } else if same(first.as_str(), "dinit") {
        if signs.dinit_socket || signs.dinit_answers {
            InitSystem::Dinit
        } else {
            InitSystem::Xdg
        }
    } else if same(first.as_str(), "runit") {
        if signs.runit_folder && signs.runit_runs {
            InitSystem::Runit
        } else {
            InitSystem::Xdg
        }
    } else {
        InitSystem::Xdg
    }
}

/// The file below the configuration folder whose presence tells that the daemon is started.
pub open spec fn marker(init: InitSystem) -> Seq<char> {
    match init {
        InitSystem::Systemd => "systemd/user/default.target.wants/monsoon.service"@,
        InitSystem::Runit => "service/monsoon"@,
        InitSystem::Dinit => "dinit.d/boot.d/monsoon"@,
        InitSystem::Xdg => "autostart/monsoon.desktop"@,
    }
}

/// The file whose presence tells that the daemon is started on login.
pub fn marker_path(init: InitSystem, config_dir: &str) -> (r: String)
    ensures
        r@ == below(config_dir@, marker(init)),
{
    path_below(
        config_dir,
        match init {
            InitSystem::Systemd => "systemd/user/default.target.wants/monsoon.service",
            InitSystem::Runit => "service/monsoon",
            InitSystem::Dinit => "dinit.d/boot.d/monsoon",
            InitSystem::Xdg => "autostart/monsoon.desktop",
        },
    )
}

/// A file that starts the daemon.
#[derive(Debug, Clone, PartialEq, Eq)]
pub struct StartFile {
    pub folder: String,
    pub name: String,
    pub content: String,
    /// whether it is a script to be run
    pub executable: bool,
    /// the link that makes the service known, where one is needed
    pub link: Option<String>,
}

/// What the file that starts the program `exe` holds.
pub open spec fn start_text(init: InitSystem, exe: Seq<char>) -> Seq<char> {
    match init {
        InitSystem::Systemd => "[Unit]\nDescription=monsoon daemon\nAfter=network.target\n\n[Service]\nExecStart="@
            + exe
            + " daemon --quiet\nRestart=on-failure\n\n[Install]\nWantedBy=default.target\n"@,
        InitSystem::Runit => "#!/bin/sh\nexec "@ + exe + " daemon --quiet 2>&1\n"@,
        InitSystem::Dinit => "type = process\ncommand = "@ + exe
            + " daemon --quiet\nrestart = true\nlogfile = /dev/null\n"@,
        InitSystem::Xdg => "[Desktop Entry]\nType=Application\nName=monsoon\nExec="@ + exe
            + " daemon --quiet\nHidden=false\nNoDisplay=false\nX-GNOME-Autostart-enabled=true\n"@,
    }
}

/// The file that starts the program `exe` on login.
pub open spec fn is_start_file(
    f: StartFile,
    init: InitSystem,
    config_dir: Seq<char>,
    data_dir: Seq<char>,
    exe: Seq<char>,
) -> bool {
    &&& f.content@ == start_text(init, exe)
    &&& f.executable == (init == InitSystem::Runit)
    &&& f.link is Some <==> init == InitSystem::Runit
    &&& f.link matches Some(l) ==> l@ == below(config_dir, "service/monsoon"@)
    &&& match init {
        InitSystem::Systemd => f.folder@ == below(config_dir, "systemd/user"@) && f.name@
            == "monsoon.service"@,
        InitSystem::Runit => f.folder@ == below(data_dir, "sv/monsoon"@) && f.name@ == "run"@,
        InitSystem::Dinit => f.folder@ == below(config_dir, "dinit.d"@) && f.name@ == "monsoon"@,
        InitSystem::Xdg => f.folder@ == below(config_dir, "autostart"@) && f.name@
            == "monsoon.desktop"@,
    }
}

/// The file that starts the program `exe` on login.
pub fn start_file(init: InitSystem, config_dir: &str, data_dir: &str, exe: &str) -> (r: StartFile)
    ensures
        is_start_file(r, init, config_dir@, data_dir@, exe@),
{
    match init {
        InitSystem::Systemd => StartFile {
            folder: path_below(config_dir, "systemd/user"),
            name: "monsoon.service".to_owned(),
            content: concat3(
                "[Unit]\nDescription=monsoon daemon\nAfter=network.target\n\n[Service]\nExecStart=",
                exe,
                " daemon --quiet\nRestart=on-failure\n\n[Install]\nWantedBy=default.target\n",
            ),
            executable: false,
            link: None,
        },
        InitSystem::Runit => StartFile {
            folder: path_below(data_dir, "sv/monsoon"),
            name: "run".to_owned(),
            content: concat3("#!/bin/sh\nexec ", exe, " daemon --quiet 2>&1\n"),
            executable: true,
            link: Some(path_below(config_dir, "service/monsoon")),
        },
        InitSystem::Dinit => StartFile {
            folder: path_below(config_dir, "dinit.d"),
            name: "monsoon".to_owned(),
            content: concat3(
                "type = process\ncommand = ",
                exe,
                " daemon --quiet\nrestart = true\nlogfile = /dev/null\n",
            ),
            executable: false,
            link: None,
        },
        InitSystem::Xdg => StartFile {
            folder: path_below(config_dir, "autostart"),
            name: "monsoon.desktop".to_owned(),
            content: concat3(
                "[Desktop Entry]\nType=Application\nName=monsoon\nExec=",
                exe,
                " daemon --quiet\nHidden=false\nNoDisplay=false\nX-GNOME-Autostart-enabled=true\n",
            ),
            executable: false,
            link: None,
        },
    }
}

/// What the unit file of the service holds that is installed by hand.
pub open spec fn unit_text(exe: Seq<char>) -> Seq<char> {
    "[Unit]\nDescription=monsoon torrent daemon\nAfter=network.target\n\n[Service]\nType=notify\nNotifyAccess=main\nExecStart="@
        + exe
        + " daemon\nRestart=on-failure\nRestartSec=5\n\n[Install]\nWantedBy=default.target\n"@
}

/// What the unit file of the service holds that is installed by hand.
pub fn service_unit(exe: &str) -> (r: String)
    ensures
        r@ == unit_text(exe@),
{
    concat3(
        "[Unit]\nDescription=monsoon torrent daemon\nAfter=network.target\n\n[Service]\nType=notify\nNotifyAccess=main\nExecStart=",
        exe,
        " daemon\nRestart=on-failure\nRestartSec=5\n\n[Install]\nWantedBy=default.target\n",
    )
}

// ----- whose process it is -----

/// The words of a text: its longest runs without white space.
pub open spec fn words(s: Seq<char>) -> Seq<Seq<char>>
    decreases s.len(),
{
    if s.len() == 0 {
        Seq::empty()
    } else {
        let init = s.drop_last();
        let before = words(init);
        if is_space(s.last()) {
            before
        } else if init.len() > 0 && !is_space(init.last()) {
            before.drop_last().push(before.last().push(s.last()))
        } else {
            before.push(seq![s.last()])
        }
    }
}

/// The words of a text.
pub fn split_words(s: &str) -> (r: Vec<String>)
    ensures
        texts(r@) == words(s@),
{
    let v = chars_of(s);
    let mut out: Vec<String> = Vec::new();
    let mut word = String::new();
    let mut open = false;
    let mut i: usize = 0;
    assert(v@.take(0) =~= Seq::<char>::empty());
    assert(texts(out@) =~= Seq::<Seq<char>>::empty());
    while i < v.len()
        invariant
            i <= v@.len(),
            v@ == s@,
            open == (i > 0 && !is_space(v@[i - 1])),
            open ==> texts(out@).push(word@) == words(v@.take(i as int)),
            !open ==> texts(out@) == words(v@.take(i as int)),
        decreases v@.len() - i,
    {
        let c = v[i];
        proof {
            let next = v@.take(i as int + 1);
            assert(next.drop_last() =~= v@.take(i as int));
            if i > 0 {
                assert(v@.take(i as int).last() == v@[i - 1]);
            }
        }
        let ghost before = out@;
        if c.is_whitespace() {
            if open {
                let full = word;
                out.push(full);
                word = String::new();
                assert(texts(out@) =~= texts(before).push(full@));
            }
            open = false;
        } else {
            if !open {
                word = String::new();
                assert(word@ =~= Seq::<char>::empty());
            }
            let ghost prior = word@;
            word.push(c);
            proof {
                if open {
                    assert(texts(out@).push(prior).drop_last() =~= texts(out@));
                } else {
                    assert(word@ =~= seq![c]);
                }
            }
            open = true;
        }
        i = i + 1;
    }
    assert(v@.take(v@.len() as int) =~= v@);
    if open {
        let ghost before = out@;
        out.push(word);
        assert(texts(out@) =~= texts(before).push(word@));
    }
    out
}

/// The program that a command line begins with: all before the first zero byte.
pub open spec fn program_of(command: Seq<u8>) -> Seq<u8>
    decreases command.len(),
{
    if command.len() == 0 || command[0] == 0 {
        Seq::empty()
    } else {
        seq![command[0]] + program_of(command.skip(1))
    }
}

/// The name of the program that supervises runit services.
pub open spec fn supervisor_name() -> Seq<u8> {
    seq![114u8, 117u8, 110u8, 115u8, 118u8, 100u8, 105u8, 114u8]
}

/// The program of the command line has the supervisor's name in its own.
pub open spec fn names_supervisor(command: Seq<u8>) -> bool {
    let program = program_of(command);
    exists|k: int|
        0 <= k <= program.len() - 8 && #[trigger] program.subrange(k, k + 8) == supervisor_name()
}

/// What the program of a command line is.
proof fn lemma_program_of(command: Seq<u8>, n: int)
    requires
        0 <= n <= command.len(),
        forall|j: int| 0 <= j < n ==> #[trigger] command[j] != 0,
        n < command.len() ==> command[n] == 0,
    ensures
        program_of(command) == command.take(n),
    decreases n,
{
    if n == 0 {
        assert(command.take(0) =~= Seq::<u8>::empty());
    } else {
        let rest = command.skip(1);
        assert forall|j: int| 0 <= j < n - 1 implies #[trigger] rest[j] != 0 by {
            assert(rest[j] == command[j + 1]);
        }
        lemma_program_of(rest, n - 1);
        assert(command[0] != 0);
        assert(seq![command[0]] + rest.take(n - 1) =~= command.take(n));
    }
}

/// Whether a process that was started by the command line supervises runit services.
pub fn is_supervisor(command: &Vec<u8>) -> (r: bool)
    ensures
        r == names_supervisor(command@),
{
    let mut n: usize = 0;
    while n < command.len() && command[n] != 0
        invariant
            n <= command@.len(),
            forall|j: int| 0 <= j < n ==> #[trigger] command@[j] != 0,
        decreases command@.len() - n,
    {
        n = n + 1;
    }
    proof {
        lemma_program_of(command@, n as int);
    }
    let ghost program = program_of(command@);
    let mut k: usize = 0;
    while n >= 8 && k <= n - 8
        invariant
            n <= command@.len(),
            program == program_of(command@),
            program == command@.take(n as int),
            n >= 8 ==> k <= n - 7,
            n < 8 ==> k == 0,
            forall|j: int|
                0 <= j < k ==> #[trigger] program.subrange(j, j + 8) != supervisor_name(),
        decreases n - k,
    {
        let found = command[k] == 114 && command[k + 1] == 117 && command[k + 2] == 110
            && command[k + 3] == 115 && command[k + 4] == 118 && command[k + 5] == 100 && command[k
            + 6] == 105 && command[k + 7] == 114;
        let ghost window = program.subrange(k as int, k + 8);
        if found {
            assert(window =~= supervisor_name());
            return true;
        }
        proof {
            if window == supervisor_name() {
                assert(window[0] == command@[k as int] && window[1] == command@[k + 1]);
                assert(window[2] == command@[k + 2] && window[3] == command@[k + 3]);
                assert(window[4] == command@[k + 4] && window[5] == command@[k + 5]);
                assert(window[6] == command@[k + 6] && window[7] == command@[k + 7]);
            }
        }
        k = k + 1;
    }
    false
}

/// The user that the first line with users names as the effective one, from line `from` on. The
/// real user stands before it.
pub open spec fn uid_from(lines: Seq<Seq<char>>, from: int) -> Option<int>
    decreases lines.len() - from,
{
    if from < 0 || from >= lines.len() {
        None
    } else if has_prefix(lines[from], "Uid:"@) {
        let fields = words(lines[from]);
        if fields.len() > 2 {
            written_within(fields[2], false, 0, u32::MAX as int)
        } else {
            None
        }
    } else {
        uid_from(lines, from + 1)
    }
}

/// The effective user of a process, by what the system tells of the process.
pub fn process_uid(status: &str) -> (r: Option<u32>)
    ensures
        r is Some <==> uid_from(split(status@, '\n'), 0) is Some,
        r matches Some(uid) ==> uid_from(split(status@, '\n'), 0) == Some(uid as int),
{
    let lines = split_on(status, '\n');
    let ghost all = split(status@, '\n');
    let mut i: usize = 0;
    while i < lines.len()
        invariant
            i <= lines@.len(),
            all == split(status@, '\n'),
            texts(lines@) == all,
            uid_from(all, 0) == uid_from(all, i as int),
        decreases lines@.len() - i,
    {
        assert(all[i as int] == lines@[i as int]@);
        if starts_with(lines[i].as_str(), "Uid:") {
            let fields = split_words(lines[i].as_str());
            if fields.len() > 2 {
                assert(texts(fields@)[2] == fields@[2]@);
                if let Some(n) = parse_u64(fields[2].as_str()) {
                    if n <= u32::MAX as u64 {
                        return Some(n as u32);
                    }
                }
            }
            return None;
        }
        i = i + 1;
    }
    None
}

} // verus!

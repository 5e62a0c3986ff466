//! Server configuration: the profiles that commands run under.

use vstd::hash_map::StringHashMap;
use vstd::prelude::*;

use crate::error::{ErrorCode, ProtocolError};
use crate::quote;
use crate::text;

verus! {

/// A shell to start, and what to run in it before the command.
#[derive(Debug)]
pub struct Profile {
    pub shell: Vec<String>,
    pub setup: String,
}

/// The shell of a profile that names none.
pub open spec fn default_shell_view() -> Seq<Seq<char>> {
    seq!["bash"@, "-c"@]
}

/// The shell of a profile that names none.
pub fn default_shell() -> (shell: Vec<String>)
    ensures
        text::views(shell@) == default_shell_view(),
{
    let mut shell: Vec<String> = Vec::new();
    shell.push("bash".to_owned());
    shell.push("-c".to_owned());
    assert(text::views(shell@) =~= default_shell_view());
    shell
}

pub struct ServerConfig {
    /// The profile of a command that names none.
    pub default_profile: Option<String>,
    pub profiles: StringHashMap<Profile>,
}

/// What a configuration file declares, as it was read.
pub struct ConfigFile {
    pub default_profile: Option<String>,
    /// The profiles by name, each name once.
    pub profiles: Vec<(String, Profile)>,
}

impl ConfigFile {
    /// The profiles by name.
    pub open spec fn declared(self) -> Map<Seq<char>, Profile> {
        declared_in(self.profiles@)
    }

    /// Whether some profile has a shell without words.
    pub open spec fn has_empty_shell(self) -> bool {
        exists|i: int| 0 <= i < self.profiles@.len() && (#[trigger] self.profiles@[i]).1.shell@.len() == 0
    }

    /// Whether the default is a profile that is not declared.
    pub open spec fn has_undeclared_default(self) -> bool {
        self.default_profile matches Some(name) && !self.declared().contains_key(name@)
    }
}

/// The profiles of a list, by name.
pub open spec fn declared_in(profiles: Seq<(String, Profile)>) -> Map<Seq<char>, Profile>
    decreases profiles.len(),
{
    if profiles.len() == 0 {
        Map::empty()
    } else {
        declared_in(profiles.drop_last()).insert(profiles.last().0@, profiles.last().1)
    }
}

/// The script that a shell runs for a command: the setup, then the command in
/// place of the shell.
pub open spec fn script_for(setup: Seq<char>, argv: Seq<Seq<char>>) -> Seq<char> {
    if setup.len() == 0 {
        "exec "@ + quote::command_words(argv)
    } else {
        setup + "\nexec "@ + quote::command_words(argv)
    }
}

/// The script that a shell runs for a command.
pub fn shell_script(setup: &str, argv: &Vec<String>) -> (out: String)
    ensures
        out@ == script_for(setup@, text::views(argv@)),
{
    let words = quote::quote_command(argv);
    if setup.is_empty() {
        text::concat("exec ", words.as_str())
    } else {
        text::concat3(setup, "\nexec ", words.as_str())
    }
}

/// A script is its setup, where there is one, and behind it a line that makes the
/// shell run `exec` with exactly the given arguments.
pub proof fn script_runs_the_command(setup: Seq<char>, argv: Seq<Seq<char>>)
    requires
        argv.len() > 0,
    ensures
        quote::shell_words(script_for(Seq::<char>::empty(), argv)) == Some(seq!["exec"@] + argv),
        setup.len() > 0 ==> script_for(setup, argv) == setup + "\n"@ + script_for(
            Seq::<char>::empty(),
            argv,
        ),
{
    reveal_strlit("\n");
    reveal_strlit("\nexec ");
    reveal_strlit("exec");
    reveal_strlit("exec ");
    let words = argv.map_values(|a: Seq<char>| quote::word_of(a));
    let all = seq!["exec"@] + argv;
    let pieces = seq!["exec"@] + words;
    assert forall|i: int| 0 <= i < all.len() implies #[trigger] pieces[i] == quote::word_of(all[i])
        || pieces[i] == quote::single_quoted(all[i]) by {
        if i == 0 {
            assert(quote::all_plain("exec"@));
        } else {
            assert(pieces[i] == words[i - 1]);
        }
    }
    quote::quoted_words_read_back(pieces, all);
    join_front("exec"@, words);
    assert("exec "@ =~= "exec"@ + seq![' ']);
    assert("\nexec "@ =~= "\n"@ + "exec "@);
    assert(setup + "\nexec "@ + quote::command_words(argv) =~= setup + "\n"@ + ("exec "@
        + quote::command_words(argv)));
}

proof fn join_front(a: Seq<char>, rest: Seq<Seq<char>>)
    requires
        rest.len() > 0,
    ensures
        text::join(seq![a] + rest, seq![' ']) == a + seq![' '] + text::join(rest, seq![' ']),
    decreases rest.len(),
{
    let all = seq![a] + rest;
    if rest.len() == 1 {
        assert(all.drop_last() =~= seq![a]);
        assert(text::join(all.drop_last(), seq![' ']) == a);
        assert(text::join(rest, seq![' ']) == rest[0]);
    } else {
        join_front(a, rest.drop_last());
        assert(all.drop_last() =~= seq![a] + rest.drop_last());
        assert(text::join(all, seq![' ']) =~= a + seq![' '] + text::join(rest, seq![' ']));
    }
}

impl Default for ServerConfig {
    fn default() -> (c: Self)
        ensures
            c.default_profile is None,
            c.profiles@ == Map::<Seq<char>, Profile>::empty(),
            c.wf(),
    {
        ServerConfig { default_profile: None, profiles: StringHashMap::new() }
    }
}

impl ServerConfig {
    /// Every shell has words, and the default is declared.
    pub open spec fn wf(&self) -> bool {
        &&& forall|name: Seq<char>| #[trigger]
            self.profiles@.contains_key(name) ==> self.profiles@[name].shell@.len() > 0
        &&& self.default_profile matches Some(name) ==> self.profiles@.contains_key(name@)
    }

    /// The name of the profile that a command runs under, if any.
    pub open spec fn chosen(&self, profile: Option<Seq<char>>) -> Option<Seq<char>> {
        match profile {
            Some(name) => Some(name),
            None => match self.default_profile {
                Some(name) => Some(name@),
                None => None,
            },
        }
    }

    /// Whether `out` is the configuration that the file with the content `s` declares.
    pub open spec fn loaded(
        out: Result<Self, ProtocolError>,
        s: Seq<char>,
        read: Result<ConfigFile, String>,
    ) -> bool {
        &&& match out {
            Ok(c) => {
                &&& c.wf()
                &&& text::is_blank(s) ==> c.default_profile is None && c.profiles@ == Map::<
                    Seq<char>,
                    Profile,
                >::empty()
                &&& !text::is_blank(s) ==> {
                    &&& read matches Ok(file)
                    &&& c.default_profile == file.default_profile
                    &&& c.profiles@ == file.declared()
                }
            },
            Err(e) => {
                &&& !text::is_blank(s)
                &&& match read {
                    Err(m) => e.says(
                        ErrorCode::InvalidRequest,
                        "invalid server config: "@ + m@,
                    ),
                    Ok(file) => if file.has_empty_shell() {
                        e.says(
                            ErrorCode::InvalidRequest,
                            "invalid server config: a profile has an empty shell"@,
                        )
                    } else {
                        &&& file.has_undeclared_default()
                        &&& e.says(
                            ErrorCode::InvalidRequest,
                            "invalid server config: default_profile is not declared: "@
                                + file.default_profile->0@,
                        )
                    },
                }
            },
        }
        &&& !text::is_blank(s) ==> (out is Err <==> read is Err || read->Ok_0.has_empty_shell()
            || read->Ok_0.has_undeclared_default())
    }

    /// The configuration that the file with the content `s` declares: the empty
    /// one for a blank file, else what was read of it. Reading may have failed
    /// with a message; shells without words and undeclared defaults are refused.
    pub fn load_from_str(s: &str, read: Result<ConfigFile, String>) -> (out: Result<
        Self,
        ProtocolError,
    >)
        ensures
            Self::loaded(out, s@, read),
    {
        if text::blank(s) {
            return Ok(ServerConfig::default());
        }
        let file = match read {
            Ok(file) => file,
            Err(m) => {
                let m = text::concat("invalid server config: ", m.as_str());
                return Err(ProtocolError::new(ErrorCode::InvalidRequest, m.as_str()));
            },
        };
        ServerConfig::from_file(file)
    }

    fn from_file(file: ConfigFile) -> (out: Result<Self, ProtocolError>)
        ensures
            match out {
                Ok(c) => {
                    &&& c.wf()
                    &&& !file.has_empty_shell()
                    &&& !file.has_undeclared_default()
                    &&& c.default_profile == file.default_profile
                    &&& c.profiles@ == file.declared()
                },
                Err(e) => if file.has_empty_shell() {
                    e.says(
                        ErrorCode::InvalidRequest,
                        "invalid server config: a profile has an empty shell"@,
                    )
                } else {
                    &&& file.has_undeclared_default()
                    &&& e.says(
                        ErrorCode::InvalidRequest,
                        "invalid server config: default_profile is not declared: "@
                            + file.default_profile->0@,
                    )
                },
            },
    {
        let ghost all = file.profiles@;
        let n: usize = file.profiles.len();
        let mut i: usize = 0;
        while i < n
            invariant
                i <= n,
                n == file.profiles@.len(),
                all == file.profiles@,
                forall|j: int| 0 <= j < i ==> (#[trigger] all[j]).1.shell@.len() > 0,
            decreases n - i,
        {
            if file.profiles[i].1.shell.len() == 0 {
                assert(file.profiles@[i as int].1.shell@.len() == 0);
                return Err(
                    ProtocolError::new(
                        ErrorCode::InvalidRequest,
                        "invalid server config: a profile has an empty shell",
                    ),
                );
            }
            i += 1;
        }
        let mut profiles: StringHashMap<Profile> = StringHashMap::new();
        let mut rest = file.profiles;
        proof {
            assert(profiles@ =~= declared_in(all.take(0)));
            assert(all.skip(0) =~= all);
        }
        // The list is taken from its front, so that the last of two profiles with
        // the same name stays.
        let mut taken: usize = 0;
        while taken < n
            invariant
                taken <= n,
                n == all.len(),
                rest@ == all.skip(taken as int),
                profiles@ == declared_in(all.take(taken as int)),
            decreases n - taken,
        {
            let (name, profile) = rest.remove(0);
            profiles.insert(name, profile);
            proof {
                assert(all.take(taken + 1).drop_last() =~= all.take(taken as int));
                assert(all.take(taken + 1).last() == all[taken as int]);
                assert(rest@ =~= all.skip(taken + 1));
            }
            taken += 1;
        }
        assert(all.take(n as int) =~= all);
        if let Some(name) = &file.default_profile {
            if !profiles.contains_key(name.as_str()) {
                let m = text::concat(
                    "invalid server config: default_profile is not declared: ",
                    name.as_str(),
                );
                return Err(ProtocolError::new(ErrorCode::InvalidRequest, m.as_str()));
            }
        }
        proof {
            declared_shells(all);
        }
        Ok(ServerConfig { default_profile: file.default_profile, profiles })
    }

    /// The setup of a named profile; nothing without a name.
    pub fn setup_for(&self, profile: Option<&str>) -> (out: Result<&str, ProtocolError>)
        ensures
            match (profile, out) {
                (None, Ok(setup)) => setup@ == ""@,
                (None, Err(_)) => false,
                (Some(name), Ok(setup)) => self.profiles@.contains_key(name@) && setup@
                    == self.profiles@[name@].setup@,
                (Some(name), Err(e)) => !self.profiles@.contains_key(name@) && e.says(
                    ErrorCode::InvalidRequest,
                    "unknown profile: "@ + name@,
                ),
            },
    {
        match profile {
            None => Ok(""),
            Some(name) => match self.profiles.get(name) {
                Some(p) => Ok(p.setup.as_str()),
                None => {
                    let m = text::concat("unknown profile: ", name);
                    Err(ProtocolError::new(ErrorCode::InvalidRequest, m.as_str()))
                },
            },
        }
    }

    /// What to start for a command: the shell of its profile with the script as
    /// the last argument, or the command itself where no profile applies.
    pub fn command_for(&self, profile: Option<&str>, argv: &Vec<String>) -> (out: Result<
        Vec<String>,
        ProtocolError,
    >)
        requires
            self.wf(),
        ensures
            match (self.chosen(crate::exec::str_view(profile)), out) {
                (None, Ok(command)) => command@ == argv@,
                (None, Err(_)) => false,
                (Some(name), Ok(command)) => {
                    &&& self.profiles@.contains_key(name)
                    &&& text::views(command@) == text::views(
                        self.profiles@[name].shell@,
                    ).push(script_for(self.profiles@[name].setup@, text::views(argv@)))
                },
                (Some(name), Err(e)) => !self.profiles@.contains_key(name) && e.says(
                    ErrorCode::InvalidRequest,
                    "unknown profile: "@ + name,
                ),
            },
    {
        let name = match profile {
            Some(name) => name,
            None => match &self.default_profile {
                Some(name) => name.as_str(),
                None => {
                    return Ok(text::copy_strings(argv));
                },
            },
        };
        match self.profiles.get(name) {
            Some(p) => {
                let mut command = text::copy_strings(&p.shell);
                let ghost shell = text::views(p.shell@);
                command.push(shell_script(p.setup.as_str(), argv));
                assert(text::views(command@) =~= shell.push(
                    script_for(p.setup@, text::views(argv@)),
                ));
                Ok(command)
            },
            None => {
                let m = text::concat("unknown profile: ", name);
                Err(ProtocolError::new(ErrorCode::InvalidRequest, m.as_str()))
            },
        }
    }
}

proof fn declared_shells(profiles: Seq<(String, Profile)>)
    requires
        forall|j: int| 0 <= j < profiles.len() ==> (#[trigger] profiles[j]).1.shell@.len() > 0,
    ensures
        forall|name: Seq<char>| #[trigger]
            declared_in(profiles).contains_key(name) ==> declared_in(profiles)[name].shell@.len()
                > 0,
    decreases profiles.len(),
{
    if profiles.len() > 0 {
        let front = profiles.drop_last();
        assert forall|j: int| 0 <= j < front.len() implies (#[trigger] front[j]).1.shell@.len()
            > 0 by {
            assert(front[j] == profiles[j]);
        }
        declared_shells(front);
        assert(profiles[profiles.len() - 1].1.shell@.len() > 0);
        assert forall|name: Seq<char>| #[trigger]
            declared_in(profiles).contains_key(name) implies declared_in(
            profiles,
        )[name].shell@.len() > 0 by {
            if name != profiles.last().0@ {
                assert(declared_in(front).contains_key(name));
            }
        }
    }
}

/// A profile that is declared under a name is the one that is found under it, and
/// no other name is found.
pub proof fn declared_profiles_are_found(profiles: Seq<(String, Profile)>)
    requires
        forall|i: int, j: int|
            0 <= i < j < profiles.len() ==> (#[trigger] profiles[i]).0@ != (
            #[trigger] profiles[j]).0@,
    ensures
        forall|i: int|
            0 <= i < profiles.len() ==> declared_in(profiles).contains_key(
                (#[trigger] profiles[i]).0@,
            ) && declared_in(profiles)[profiles[i].0@] == profiles[i].1,
        forall|name: Seq<char>| #[trigger]
            declared_in(profiles).contains_key(name) ==> exists|i: int|
                0 <= i < profiles.len() && (#[trigger] profiles[i]).0@ == name,
    decreases profiles.len(),
{
    if profiles.len() > 0 {
        let front = profiles.drop_last();
        let last = profiles[profiles.len() - 1];
        assert forall|i: int, j: int| 0 <= i < j < front.len() implies (#[trigger] front[i]).0@ != (
        #[trigger] front[j]).0@ by {
            assert(front[i] == profiles[i] && front[j] == profiles[j]);
        }
        declared_profiles_are_found(front);
        assert forall|i: int| 0 <= i < profiles.len() implies declared_in(profiles).contains_key(
            (#[trigger] profiles[i]).0@,
        ) && declared_in(profiles)[profiles[i].0@] == profiles[i].1 by {
            if i < front.len() {
                assert(front[i] == profiles[i]);
                assert(profiles[i].0@ != last.0@);
            }
        }
        assert forall|name: Seq<char>| #[trigger]
            declared_in(profiles).contains_key(name) implies exists|i: int|
            0 <= i < profiles.len() && (#[trigger] profiles[i]).0@ == name by {
            if name == last.0@ {
                assert(profiles[profiles.len() - 1].0@ == name);
            } else {
                assert(declared_in(front).contains_key(name));
                let i = choose|i: int| 0 <= i < front.len() && (#[trigger] front[i]).0@ == name;
                assert(profiles[i].0@ == name);
            }
        }
    }
}

/// A command runs under the profile that it names, else under the default one,
/// else under none; and the shell of a profile that names none is `bash -c`.
pub proof fn commands_choose_their_profile(config: ServerConfig, name: Seq<char>)
    ensures
        config.chosen(Some(name)) == Some(name),
        config.default_profile is None ==> config.chosen(None) is None,
        config.default_profile matches Some(d) ==> config.chosen(None) == Some(d@),
        default_shell_view() == seq!["bash"@, "-c"@],
{
}

/// A configuration is taken exactly where its file is blank, or was read, every profile
/// has a shell with words, and the default is one of the profiles, where there is one.
/// It holds the profiles of the file then, each under its name, and its default.
pub proof fn configurations_hold_what_was_declared(
    out: Result<ServerConfig, ProtocolError>,
    s: Seq<char>,
    file: ConfigFile,
)
    requires
        ServerConfig::loaded(out, s, Ok(file)),
        forall|i: int, j: int|
            0 <= i < j < file.profiles@.len() ==> (#[trigger] file.profiles@[i]).0@ != (
            #[trigger] file.profiles@[j]).0@,
        exists|i: int| 0 <= i < s.len() && !text::white_space(#[trigger] s[i]),
    ensures
        out is Ok <==> (forall|i: int|
            0 <= i < file.profiles@.len() ==> (#[trigger] file.profiles@[i]).1.shell@.len() > 0)
            && (file.default_profile is None || exists|i: int|
            0 <= i < file.profiles@.len() && (#[trigger] file.profiles@[i]).0@
                == file.default_profile->0@),
        out matches Ok(c) ==> c.default_profile == file.default_profile && (forall|i: int|
            0 <= i < file.profiles@.len() ==> c.profiles@.contains_key(
                (#[trigger] file.profiles@[i]).0@,
            ) && c.profiles@[file.profiles@[i].0@] == file.profiles@[i].1),
        out matches Err(e) ==> e.code == ErrorCode::InvalidRequest,
{
    declared_profiles_are_found(file.profiles@);
    if let Some(name) = file.default_profile {
        if file.declared().contains_key(name@) {
            let i = choose|i: int|
                0 <= i < file.profiles@.len() && (#[trigger] file.profiles@[i]).0@ == name@;
            assert(file.profiles@[i].0@ == name@);
        }
    }
}

/// A blank configuration is the empty one, and one that cannot be read is refused.
pub proof fn blank_configurations_are_empty(
    out: Result<ServerConfig, ProtocolError>,
    s: Seq<char>,
    read: Result<ConfigFile, String>,
)
    requires
        ServerConfig::loaded(out, s, read),
    ensures
        (forall|i: int| 0 <= i < s.len() ==> text::white_space(#[trigger] s[i])) ==> out is Ok
            && out->Ok_0.default_profile is None && out->Ok_0.profiles@ == Map::<
            Seq<char>,
            Profile,
        >::empty(),
        (exists|i: int| 0 <= i < s.len() && !text::white_space(#[trigger] s[i])) && read is Err
            ==> out is Err && out->Err_0.code == ErrorCode::InvalidRequest,
{
}

}

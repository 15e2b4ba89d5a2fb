//! The configuration of the bootstrapper, and what is read off it: the
//! coordinates to resolve, the java to run, and what the application is told
//! once it runs.
use std::collections::HashMap;
use vstd::prelude::*;

verus! {

/// The java that is run where the configuration names none.
pub const JAVA_PATH: &'static str = "./runtime/bin/java";

/// The artifacts to get, each `group:artifact` with its version: those that
/// come as one archive with everything inside, and those whose dependencies
/// are resolved.
#[derive(Debug)]
pub struct Mirai {
    pub full: HashMap<String, String>,
    pub maven: HashMap<String, String>,
}

/// The Java runtime to use: where its java lies, and the architecture to
/// download one for.
#[derive(Debug)]
pub struct JRE {
    pub path: Option<String>,
    pub arch: Option<String>,
}

#[derive(Debug)]
pub struct Config {
    pub self_update: bool,
    pub bootstrap_commands: Vec<String>,
    pub jre: JRE,
    pub entrypoint: String,
    pub mirai: Mirai,
}

/// The characters of each text of a list.
pub open spec fn texts_of(list: Seq<String>) -> Seq<Seq<char>> {
    list.map_values(|s: String| s@)
}

/// The lines of a list with a line feed between each two.
pub open spec fn joined(lines: Seq<Seq<char>>) -> Seq<char>
    decreases lines.len(),
{
    if lines.len() == 0 {
        Seq::empty()
    } else if lines.len() == 1 {
        lines[0]
    } else {
        joined(lines.drop_last()) + seq!['\n'] + lines.last()
    }
}

/// What the application is sent when it has started: the commands, one per
/// line, and a line feed at the end; nothing at all where that would be the
/// line feed alone.
pub open spec fn bootstrap_text(commands: Seq<Seq<char>>) -> Seq<char> {
    if joined(commands).len() == 0 {
        Seq::empty()
    } else {
        joined(commands) + seq!['\n']
    }
}

impl Config {
    /// The java to run: the configured one, or the one of the runtime that
    /// the bootstrapper installs.
    pub fn java_path(&self) -> (path: String)
        ensures
            path@ == (match self.jre.path {
                Some(configured) => configured@,
                None => JAVA_PATH@,
            }),
    {
        match &self.jre.path {
            Some(configured) => configured.clone(),
            None => String::from_str(JAVA_PATH),
        }
    }

    /// The text that is written to the application's input once it runs.
    pub fn bootstrap_input(&self) -> (text: String)
        ensures
            text@ == bootstrap_text(texts_of(self.bootstrap_commands@)),
    {
        let ghost lines = texts_of(self.bootstrap_commands@);
        let mut text: String = String::new();
        let mut i: usize = 0;
        proof {
            reveal_strlit("\n");
            assert("\n"@ =~= seq!['\n']);
            assert(lines.take(0) =~= Seq::<Seq<char>>::empty());
        }
        while i < self.bootstrap_commands.len()
            invariant
                i <= self.bootstrap_commands.len(),
                lines == texts_of(self.bootstrap_commands@),
                "\n"@ == seq!['\n'],
                text@ == joined(lines.take(i as int)),
            decreases self.bootstrap_commands.len() - i,
        {
            if i > 0 {
                text.append("\n");
            }
            text.append(self.bootstrap_commands[i].as_str());
            proof {
                assert(lines.take(i + 1).drop_last() =~= lines.take(i as int));
                assert(lines.take(i + 1).last() == lines[i as int]);
                assert(text@ =~= joined(lines.take(i + 1)));
            }
            i = i + 1;
        }
        proof {
            assert(lines.take(self.bootstrap_commands.len() as int) =~= lines);
        }
        if !text.as_str().is_empty() {
            text.append("\n");
        }
        text
    }
}

/// The colon at `at` is the last one of the text.
pub open spec fn last_colon(text: Seq<char>, at: int) -> bool {
    &&& 0 <= at < text.len()
    &&& text[at] == ':'
    &&& forall|j: int| at < j < text.len() ==> text[j] != ':'
}

/// Splits `group:artifact` at its last colon and joins the version to the two
/// parts: the coordinate `(group, artifact, version)`. The group may itself
/// hold colons, the artifact holds none.
pub fn parse_mirai_from_config(project: &str, version: &str) -> (coordinate: (
    String,
    String,
    String,
))
    requires
        project@.contains(':'),
    ensures
        last_colon(project@, coordinate.0@.len() as int),
        coordinate.0@ == project@.take(coordinate.0@.len() as int),
        coordinate.1@ == project@.skip(coordinate.0@.len() as int + 1),
        coordinate.2@ == version@,
{
    let n: usize = project.unicode_len();
    let mut at: usize = n;
    while at > 0 && project.get_char(at - 1) != ':'
        invariant
            n == project@.len(),
            at <= n,
            forall|j: int| at <= j < n ==> project@[j] != ':',
        decreases at,
    {
        at = at - 1;
    }
    proof {
        if at == 0 {
            let i = choose|i: int| 0 <= i < project@.len() && project@[i] == ':';
            assert(project@[i] != ':');
        }
    }
    let at: usize = at - 1;
    let group: String = String::from_str(project.substring_char(0, at));
    let artifact: String = String::from_str(project.substring_char(at + 1, n));
    proof {
        assert(project@.subrange(0, at as int) =~= project@.take(at as int));
        assert(project@.subrange(at + 1, n as int) =~= project@.skip(at + 1));
    }
    (group, artifact, String::from_str(version))
}

} // verus!

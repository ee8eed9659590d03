//! Shell integration: the `praxy` function printed for a shell, and the line that
//! installs it from the shell's startup file, added once and removed on request.

use vstd::prelude::*;
use vstd::string::StringExecFns;
use crate::pkginfo::{join, join_path, PkgInfo};
use crate::subscription::chars_eq;
use crate::text::{
    chars_of, contains, occurs_at, lemma_lines_concat, lemma_lines_no_newline, lemma_lines_single, lemma_newline_bounds, lemma_trim_strip_cr,
    lines, lines_from, lines_of, newline_at_or_after, no_newline, push_chars, seqs_of, string_from, strip_cr, trim,
    trim_chars,
};

verus! {

/// A shell that the `praxy` function can be installed into.
#[derive(Clone, Copy, PartialEq, Eq, Debug, Structural)]
pub enum Shell {
    Bash,
    Zsh,
    Fish,
}

/// The shell's name.
pub open spec fn shell_name(s: Shell) -> Seq<char> {
    match s {
        Shell::Bash => "bash"@,
        Shell::Zsh => "zsh"@,
        Shell::Fish => "fish"@,
    }
}

/// The line that a startup file runs to define `praxy`.
pub open spec fn init_line_of(s: Shell) -> Seq<char> {
    "eval \"$(/usr/local/bin/akasha init "@ + shell_name(s) + ")\""@
}

/// The startup file of the shell, relative to the home directory.
pub open spec fn rc_file(s: Shell) -> Seq<char> {
    match s {
        Shell::Bash => ".bashrc"@,
        Shell::Zsh => ".zshrc"@,
        Shell::Fish => ".config/fish/config.fish"@,
    }
}

impl Shell {
    /// The shell's name: `bash`, `zsh` or `fish`.
    pub fn name(self) -> (r: &'static str)
        ensures
            r@ == shell_name(self),
    {
        match self {
            Shell::Bash => "bash",
            Shell::Zsh => "zsh",
            Shell::Fish => "fish",
        }
    }

    /// The startup file of the shell under the home directory `home`.
    pub fn rc_path(&self, home: &str) -> (r: String)
        ensures
            r@ == join_path(home@, rc_file(*self)),
    {
        match self {
            Shell::Bash => join(home, ".bashrc"),
            Shell::Zsh => join(home, ".zshrc"),
            Shell::Fish => join(home, ".config/fish/config.fish"),
        }
    }

    /// `eval "$(/usr/local/bin/akasha init <shell>)"`.
    pub fn init_line(self) -> (r: String)
        ensures
            r@ == init_line_of(self),
    {
        let mut r = string_from("eval \"$(/usr/local/bin/akasha init ");
        r.append(self.name());
        r.append(")\"");
        r
    }
}

/// The shell that a `$SHELL` value names: `/bin/bash`, `/bin/zsh` or `/bin/fish`.
pub open spec fn shell_of_path(path: Seq<char>) -> Option<Shell> {
    if path == "/bin/bash"@ {
        Some(Shell::Bash)
    } else if path == "/bin/zsh"@ {
        Some(Shell::Zsh)
    } else if path == "/bin/fish"@ {
        Some(Shell::Fish)
    } else {
        None
    }
}

/// The shell that a `$SHELL` value names, if it is one of the three known paths.
pub fn shell_from_path(path: &str) -> (r: Option<Shell>)
    ensures
        r == shell_of_path(path@),
{
    let p = chars_of(path);
    if chars_eq(&p, &chars_of("/bin/bash")) {
        Some(Shell::Bash)
    } else if chars_eq(&p, &chars_of("/bin/zsh")) {
        Some(Shell::Zsh)
    } else if chars_eq(&p, &chars_of("/bin/fish")) {
        Some(Shell::Fish)
    } else {
        None
    }
}

/// Some line of `content`, trimmed, is `line`.
pub open spec fn has_line(content: Seq<char>, line: Seq<char>) -> bool {
    exists|i: int| 0 <= i < lines(content).len() && trim(#[trigger] lines(content)[i]) == line
}

/// The startup file after installing `line`: unchanged (`None`) when a line of it,
/// trimmed, is already `line`; otherwise `line` and a line break are appended, after a
/// line break when the file is not empty and does not end with one.
pub open spec fn installed(content: Seq<char>, line: Seq<char>) -> Option<Seq<char>> {
    if has_line(content, line) {
        None
    } else if content.len() > 0 && content.last() != '\n' {
        Some(content + "\n"@ + line + "\n"@)
    } else {
        Some(content + line + "\n"@)
    }
}

/// The lines of `ls` that, trimmed, are not `line`.
pub open spec fn without_line(ls: Seq<Seq<char>>, line: Seq<char>) -> Seq<Seq<char>>
    decreases ls.len(),
{
    if ls.len() == 0 {
        Seq::empty()
    } else if trim(ls.last()) == line {
        without_line(ls.drop_last(), line)
    } else {
        without_line(ls.drop_last(), line).push(ls.last())
    }
}

/// `ls` joined with `"\n"` between the lines.
pub open spec fn join_lines(ls: Seq<Seq<char>>) -> Seq<char>
    decreases ls.len(),
{
    if ls.len() == 0 {
        Seq::empty()
    } else if ls.len() == 1 {
        ls[0]
    } else {
        join_lines(ls.drop_last()) + "\n"@ + ls.last()
    }
}

/// The startup file after removing `line`: its other lines joined by line breaks, with
/// a final line break unless nothing is left.
pub open spec fn uninstalled(content: Seq<char>, line: Seq<char>) -> Seq<char> {
    let kept = join_lines(without_line(lines(content), line));
    if kept.len() == 0 {
        kept
    } else {
        kept + "\n"@
    }
}

/// The startup file's new text after installing `line`, or `None` when it already has it.
pub fn install_content(content: &str, line: &str) -> (r: Option<String>)
    ensures
        match installed(content@, line@) {
            Some(t) => r matches Some(s) && s@ == t,
            None => r is None,
        },
{
    let cc = chars_of(content);
    let lc = chars_of(line);
    let ls = lines_of(&cc);
    let ghost all = seqs_of(ls@);
    let mut i: usize = 0;
    while i < ls.len()
        invariant
            i <= ls@.len(),
            all == seqs_of(ls@),
            all == lines(content@),
            lc@ == line@,
            forall|k: int| 0 <= k < i ==> trim(#[trigger] all[k]) != line@,
        decreases ls@.len() - i,
    {
        if chars_eq(&trim_chars(&ls[i]), &lc) {
            proof {
                assert(trim(all[i as int]) == line@);
            }
            return None;
        }
        i = i + 1;
    }
    let mut r = string_from(content);
    if cc.len() > 0 && cc[cc.len() - 1] != '\n' {
        r.append("\n");
    }
    r.append(line);
    r.append("\n");
    Some(r)
}

/// The startup file's new text after removing every line that, trimmed, is `line`.
pub fn uninstall_content(content: &str, line: &str) -> (r: String)
    ensures
        r@ == uninstalled(content@, line@),
{
    let cc = chars_of(content);
    let lc = chars_of(line);
    let ls = lines_of(&cc);
    let ghost all = seqs_of(ls@);
    let mut kept: Vec<Vec<char>> = Vec::new();
    let mut i: usize = 0;
    while i < ls.len()
        invariant
            i <= ls@.len(),
            all == seqs_of(ls@),
            all == lines(content@),
            lc@ == line@,
            seqs_of(kept@) == without_line(all.take(i as int), line@),
        decreases ls@.len() - i,
    {
        let ghost before = seqs_of(kept@);
        proof {
            assert(all.take(i + 1).drop_last() == all.take(i as int));
            assert(all.take(i + 1).last() == ls@[i as int]@);
        }
        if !chars_eq(&trim_chars(&ls[i]), &lc) {
            kept.push(copy_chars(&ls[i]));
            proof {
                assert(seqs_of(kept@) =~= before.push(ls@[i as int]@));
            }
        }
        i = i + 1;
    }
    proof {
        assert(all.take(ls@.len() as int) == all);
    }
    let mut r = String::new();
    let mut j: usize = 0;
    let ghost ks = seqs_of(kept@);
    while j < kept.len()
        invariant
            j <= kept@.len(),
            ks == seqs_of(kept@),
            r@ == join_lines(ks.take(j as int)),
        decreases kept@.len() - j,
    {
        proof {
            assert(ks.take(j + 1).drop_last() == ks.take(j as int));
            assert(ks.take(j + 1).last() == kept@[j as int]@);
        }
        if j > 0 {
            r.append("\n");
        } else {
            proof {
                assert(join_lines(ks.take(0)) == Seq::<char>::empty());
            }
        }
        push_chars(&mut r, &kept[j]);
        proof {
            if j == 0 {
                assert(r@ =~= kept@[0]@);
            }
        }
        j = j + 1;
    }
    proof {
        assert(ks.take(kept@.len() as int) == ks);
    }
    if r.as_str().is_empty() {
        r
    } else {
        r.append("\n");
        r
    }
}

fn copy_chars(v: &Vec<char>) -> (r: Vec<char>)
    ensures
        r@ == v@,
{
    let mut r: Vec<char> = Vec::new();
    for i in 0..v.len()
        invariant
            r@ == v@.take(i as int),
    {
        r.push(v[i]);
        assert(v@.take(i + 1) == v@.take(i as int).push(v@[i as int]));
    }
    assert(v@.take(v.len() as int) == v@);
    r
}

/// The command line that starts Mihomo with the package's directories:
/// `akasha-mihomo -d <config dir> -f <config file> -ext-ctl-unix <socket>`.
pub fn mihomo_start_command(info: &PkgInfo) -> (r: String)
    ensures
        r@ == "akasha-mihomo -d "@ + info.configdir_spec() + " -f "@ + join_path(info.configdir_spec(), "config.yaml"@)
            + " -ext-ctl-unix "@ + join_path(join_path(info.tmp_spec(), info.name_spec()), "mihomo.sock"@),
{
    let mut r = string_from("akasha-mihomo -d ");
    r.append(info.get_app_configdir().as_str());
    r.append(" -f ");
    r.append(info.get_mihomo_config().as_str());
    r.append(" -ext-ctl-unix ");
    r.append(info.get_mihomo_socket().as_str());
    r
}


/// The `praxy` function for `shell`, routing through the local proxy on `port`.
pub open spec fn praxy_text(shell: Shell, port: Seq<char>) -> Seq<char> {
    match shell {
        Shell::Fish => "\nfunction praxy\n    if test \"$argv[1]\" = \"on\"\n        set -gx http_proxy http://127.0.0.1:"@ + port
            + "\n        set -gx https_proxy http://127.0.0.1:"@ + port + "\n        set -gx all_proxy socks5://127.0.0.1:"@ + port
            + "\n        echo \"Terminal proxy is now enabled\"\n    else if test \"$argv[1]\" = \"off\"\n        set -e http_proxy https_proxy all_proxy\n        echo \"Terminal proxy is now disabled\"\n    else\n        echo \"Usage: praxy [on|off]\"\n    end\nend\n"@,
        _ => "\nfunction praxy() {\n    if [[ $1 == \"on\" ]]; then\n        export http_proxy=http://127.0.0.1:"@ + port
            + "\n        export https_proxy=http://127.0.0.1:"@ + port + "\n        export all_proxy=socks5://127.0.0.1:"@ + port
            + "\n        echo -e \"Terminal proxy is now enabled\"\n    elif [[ $1 == \"off\" ]]; then\n        unset http_proxy https_proxy all_proxy\n        echo -e \"Terminal proxy is now disabled\"\n    else\n        echo -e \"Usage: praxy [on|off]\"\n    fi\n}\n"@,
    }
}

/// The `praxy` shell function that `akasha init <shell>` prints.
pub fn praxy_script(shell: Shell, port: &str) -> (r: String)
    ensures
        r@ == praxy_text(shell, port@),
{
    match shell {
        Shell::Fish => {
            let mut r = string_from("\nfunction praxy\n    if test \"$argv[1]\" = \"on\"\n        set -gx http_proxy http://127.0.0.1:");
            r.append(port);
            r.append("\n        set -gx https_proxy http://127.0.0.1:");
            r.append(port);
            r.append("\n        set -gx all_proxy socks5://127.0.0.1:");
            r.append(port);
            r.append("\n        echo \"Terminal proxy is now enabled\"\n    else if test \"$argv[1]\" = \"off\"\n        set -e http_proxy https_proxy all_proxy\n        echo \"Terminal proxy is now disabled\"\n    else\n        echo \"Usage: praxy [on|off]\"\n    end\nend\n");
            r
        },
        _ => {
            let mut r = string_from("\nfunction praxy() {\n    if [[ $1 == \"on\" ]]; then\n        export http_proxy=http://127.0.0.1:");
            r.append(port);
            r.append("\n        export https_proxy=http://127.0.0.1:");
            r.append(port);
            r.append("\n        export all_proxy=socks5://127.0.0.1:");
            r.append(port);
            r.append("\n        echo -e \"Terminal proxy is now enabled\"\n    elif [[ $1 == \"off\" ]]; then\n        unset http_proxy https_proxy all_proxy\n        echo -e \"Terminal proxy is now disabled\"\n    else\n        echo -e \"Usage: praxy [on|off]\"\n    fi\n}\n");
            r
        },
    }
}


/// Installing puts `line` into the file, and installing again changes nothing. The
/// line is a single line with no surrounding whitespace, as the init lines are.
pub proof fn law_install_adds_line_once(content: Seq<char>, line: Seq<char>)
    requires
        no_newline(line),
        trim(line) == line,
    ensures
        installed(content, line) is None ==> has_line(content, line),
        installed(content, line) is Some ==> has_line(installed(content, line)->0, line),
        installed(content, line) is Some ==> installed(installed(content, line)->0, line) is None,
{
    reveal_strlit("\n");
    if !has_line(content, line) {
        let p = if content.len() > 0 && content.last() != '\n' { content + "\n"@ } else { content };
        let t = installed(content, line)->0;
        assert(p.len() == 0 || p.last() == '\n');
        assert(t == p + (line + "\n"@));
        lemma_lines_concat(p, line + "\n"@);
        lemma_lines_single(line);
        lemma_trim_strip_cr(line);
        let i = lines(p).len() as int;
        assert(lines(t)[i] == strip_cr(line));
        assert(trim(lines(t)[i]) == line);
    }
}

proof fn lemma_without_line(ls: Seq<Seq<char>>, line: Seq<char>)
    ensures
        forall|i: int| 0 <= i < without_line(ls, line).len() ==> trim(#[trigger] without_line(ls, line)[i]) != line,
        (forall|j: int| 0 <= j < ls.len() ==> no_newline(#[trigger] ls[j])) ==> forall|i: int|
            0 <= i < without_line(ls, line).len() ==> no_newline(#[trigger] without_line(ls, line)[i]),
    decreases ls.len(),
{
    if ls.len() > 0 {
        lemma_without_line(ls.drop_last(), line);
        let prev = without_line(ls.drop_last(), line);
        if (forall|j: int| 0 <= j < ls.len() ==> no_newline(#[trigger] ls[j])) {
            assert forall|j: int| 0 <= j < ls.drop_last().len() implies no_newline(#[trigger] ls.drop_last()[j]) by {
                assert(ls.drop_last()[j] == ls[j]);
            }
            assert(no_newline(ls[ls.len() - 1]));
        }
        if trim(ls.last()) != line {
            let r = prev.push(ls.last());
            assert forall|i: int| 0 <= i < r.len() implies trim(#[trigger] r[i]) != line by {
                if i < prev.len() {
                    assert(r[i] == prev[i]);
                }
            }
        }
    }
}

proof fn lemma_lines_of_joined(ks: Seq<Seq<char>>)
    requires
        ks.len() >= 1,
        forall|j: int| 0 <= j < ks.len() ==> no_newline(#[trigger] ks[j]),
    ensures
        lines(join_lines(ks) + "\n"@) == Seq::new(ks.len(), |i: int| strip_cr(ks[i])),
    decreases ks.len(),
{
    reveal_strlit("\n");
    if ks.len() == 1 {
        assert(join_lines(ks) == ks[0]);
        lemma_lines_single(ks[0]);
        assert(seq![strip_cr(ks[0])] =~= Seq::new(ks.len(), |i: int| strip_cr(ks[i])));
    } else {
        let front = ks.drop_last();
        assert forall|j: int| 0 <= j < front.len() implies no_newline(#[trigger] front[j]) by {
            assert(front[j] == ks[j]);
        }
        lemma_lines_of_joined(front);
        let p = join_lines(front) + "\n"@;
        assert(p.last() == '\n');
        assert(join_lines(ks) + "\n"@ == p + (ks.last() + "\n"@));
        lemma_lines_concat(p, ks.last() + "\n"@);
        assert(no_newline(ks[ks.len() - 1]));
        lemma_lines_single(ks.last());
        assert(lines(join_lines(ks) + "\n"@) =~= Seq::new(ks.len(), |i: int| strip_cr(ks[i])));
    }
}

/// After removing `line`, no line of the file, trimmed, is `line`.
pub proof fn law_uninstall_removes_line(content: Seq<char>, line: Seq<char>)
    ensures
        !has_line(uninstalled(content, line), line),
{
    reveal_strlit("\n");
    let ks = without_line(lines(content), line);
    lemma_lines_no_newline(content);
    lemma_without_line(lines(content), line);
    let joined = join_lines(ks);
    if joined.len() == 0 {
        assert(uninstalled(content, line) == joined);
        assert(lines(joined).len() == 0);
    } else {
        if ks.len() == 0 {
            assert(joined.len() == 0);
        }
        lemma_lines_of_joined(ks);
        let out = uninstalled(content, line);
        assert(out == joined + "\n"@);
        assert forall|i: int| 0 <= i < lines(out).len() implies trim(#[trigger] lines(out)[i]) != line by {
            assert(lines(out)[i] == strip_cr(ks[i]));
            lemma_trim_strip_cr(ks[i]);
        }
    }
}

proof fn lemma_join_cons(a: Seq<char>, rest: Seq<Seq<char>>)
    requires
        rest.len() >= 1,
    ensures
        join_lines(seq![a] + rest) == a + "\n"@ + join_lines(rest),
    decreases rest.len(),
{
    let s = seq![a] + rest;
    assert(s.drop_last() == seq![a] + rest.drop_last());
    assert(s.last() == rest.last());
    assert(join_lines(s) == join_lines(s.drop_last()) + "\n"@ + s.last());
    if rest.len() == 1 {
        assert(s.drop_last() == seq![a]);
        assert(join_lines(seq![a]) == a);
        assert(join_lines(rest) == rest[0]);
        assert(rest.last() == rest[0]);
    } else {
        lemma_join_cons(a, rest.drop_last());
        assert(join_lines(rest) == join_lines(rest.drop_last()) + "\n"@ + rest.last());
        assert(join_lines(s) =~= a + "\n"@ + join_lines(rest));
    }
}

proof fn lemma_join_lines_from(c: Seq<char>, start: int)
    requires
        0 <= start < c.len(),
        c.last() == '\n',
        forall|i: int| 0 <= i < c.len() ==> c[i] != '\r',
    ensures
        lines_from(c, start).len() >= 1,
        join_lines(lines_from(c, start)) + "\n"@ == c.subrange(start, c.len() as int),
    decreases c.len() - start,
{
    reveal_strlit("\n");
    lemma_newline_bounds(c, start);
    let k = newline_at_or_after(c, start);
    if k >= c.len() {
        assert(c[c.len() - 1] == '\n');
        assert(false);
    }
    let first = c.subrange(start, k);
    if k > start {
        assert(first.last() == c[k - 1]);
    }
    assert(strip_cr(first) == first);
    assert(lines_from(c, start) == seq![first] + lines_from(c, k + 1));
    if k + 1 >= c.len() {
        assert(lines_from(c, k + 1) == Seq::<Seq<char>>::empty());
        assert(seq![first] + lines_from(c, k + 1) == seq![first]);
        assert(join_lines(seq![first]) == first);
        assert(first + "\n"@ =~= c.subrange(start, c.len() as int));
    } else {
        lemma_join_lines_from(c, k + 1);
        lemma_join_cons(first, lines_from(c, k + 1));
        assert(join_lines(lines_from(c, start)) + "\n"@ =~= first + "\n"@ + (join_lines(lines_from(c, k + 1)) + "\n"@));
        assert(c.subrange(start, c.len() as int) =~= first + "\n"@ + c.subrange(k + 1, c.len() as int));
    }
}

proof fn lemma_without_line_keeps(ls: Seq<Seq<char>>, line: Seq<char>)
    requires
        forall|i: int| 0 <= i < ls.len() ==> trim(#[trigger] ls[i]) != line,
    ensures
        without_line(ls, line) == ls,
    decreases ls.len(),
{
    if ls.len() > 0 {
        lemma_without_line_keeps(ls.drop_last(), line);
        assert(trim(ls[ls.len() - 1]) != line);
        assert(ls.drop_last().push(ls.last()) == ls);
    }
}

/// Uninstalling after installing gives the startup file back, when the file did not
/// have the line, ends with a line break (or is empty), holds no carriage return, and
/// is not a single empty line (uninstalling writes nothing for a file without text).
pub proof fn law_uninstall_undoes_install(content: Seq<char>, line: Seq<char>)
    requires
        no_newline(line),
        trim(line) == line,
        !has_line(content, line),
        content.len() == 0 || content.last() == '\n',
        forall|i: int| 0 <= i < content.len() ==> content[i] != '\r',
        content != "\n"@,
    ensures
        installed(content, line) is Some,
        uninstalled(installed(content, line)->0, line) == content,
{
    reveal_strlit("\n");
    let t = installed(content, line)->0;
    assert(t == content + (line + "\n"@));
    lemma_lines_concat(content, line + "\n"@);
    lemma_lines_single(line);
    lemma_trim_strip_cr(line);
    let ls = lines(content);
    assert(lines(t) == ls.push(strip_cr(line)));
    assert(lines(t).drop_last() == ls);
    assert(forall|i: int| 0 <= i < ls.len() ==> trim(#[trigger] ls[i]) != line);
    lemma_without_line_keeps(ls, line);
    assert(without_line(lines(t), line) == ls);
    if content.len() == 0 {
        assert(ls == Seq::<Seq<char>>::empty());
        assert(join_lines(ls) == Seq::<char>::empty());
    } else {
        lemma_join_lines_from(content, 0);
        assert(content.subrange(0, content.len() as int) == content);
        let kept = join_lines(ls);
        if kept.len() == 0 {
            assert(content =~= "\n"@);
        }
    }
}

proof fn lemma_contains_within(s: Seq<char>, a: Seq<char>, p: Seq<char>, b: Seq<char>, n: Seq<char>, k: int)
    requires
        s == a + p + b,
        occurs_at(p, n, k),
    ensures
        contains(s, n),
{
    assert(s.subrange(a.len() + k, a.len() + k + n.len()) =~= p.subrange(k, k + n.len()));
    assert(occurs_at(s, n, a.len() + k));
}

/// The `praxy` function turns off every variable it turns on: for `bash` and `zsh` the
/// `on` branch exports `http_proxy`, `https_proxy` and `all_proxy` and the `off` branch
/// unsets all three; for `fish` the same with `set -gx` and `set -e`; whatever the port.
pub proof fn law_praxy_off_clears_what_on_sets(shell: Shell, port: Seq<char>)
    ensures
        shell != Shell::Fish ==> {
            &&& contains(praxy_text(shell, port), "export http_proxy="@)
            &&& contains(praxy_text(shell, port), "export https_proxy="@)
            &&& contains(praxy_text(shell, port), "export all_proxy="@)
            &&& contains(praxy_text(shell, port), "\n        unset http_proxy https_proxy all_proxy\n"@)
        },
        shell == Shell::Fish ==> {
            &&& contains(praxy_text(shell, port), "set -gx http_proxy "@)
            &&& contains(praxy_text(shell, port), "set -gx https_proxy "@)
            &&& contains(praxy_text(shell, port), "set -gx all_proxy "@)
            &&& contains(praxy_text(shell, port), "\n        set -e http_proxy https_proxy all_proxy\n"@)
        },
{
    let t = praxy_text(shell, port);
    if shell != Shell::Fish {
        let a = "\nfunction praxy() {\n    if [[ $1 == \"on\" ]]; then\n        export http_proxy=http://127.0.0.1:"@;
        let b = "\n        export https_proxy=http://127.0.0.1:"@;
        let c = "\n        export all_proxy=socks5://127.0.0.1:"@;
        let d = "\n        echo -e \"Terminal proxy is now enabled\"\n    elif [[ $1 == \"off\" ]]; then\n        unset http_proxy https_proxy all_proxy\n        echo -e \"Terminal proxy is now disabled\"\n    else\n        echo -e \"Usage: praxy [on|off]\"\n    fi\n}\n"@;
        reveal_strlit("\nfunction praxy() {\n    if [[ $1 == \"on\" ]]; then\n        export http_proxy=http://127.0.0.1:");
        reveal_strlit("\n        export https_proxy=http://127.0.0.1:");
        reveal_strlit("\n        export all_proxy=socks5://127.0.0.1:");
        reveal_strlit("\n        echo -e \"Terminal proxy is now enabled\"\n    elif [[ $1 == \"off\" ]]; then\n        unset http_proxy https_proxy all_proxy\n        echo -e \"Terminal proxy is now disabled\"\n    else\n        echo -e \"Usage: praxy [on|off]\"\n    fi\n}\n");
        reveal_strlit("export http_proxy=");
        reveal_strlit("export https_proxy=");
        reveal_strlit("export all_proxy=");
        reveal_strlit("\n        unset http_proxy https_proxy all_proxy\n");
        assert(t == a + port + b + port + c + port + d);
        assert(a.subrange(58int, 76int) =~= "export http_proxy="@);
        assert(t =~= (Seq::empty()) + a + (port + b + port + c + port + d));
        lemma_contains_within(t, Seq::empty(), a, port + b + port + c + port + d, "export http_proxy="@, 58);
        assert(b.subrange(9int, 28int) =~= "export https_proxy="@);
        assert(t =~= (a + port) + b + (port + c + port + d));
        lemma_contains_within(t, a + port, b, port + c + port + d, "export https_proxy="@, 9);
        assert(c.subrange(9int, 26int) =~= "export all_proxy="@);
        assert(t =~= (a + port + b + port) + c + (port + d));
        lemma_contains_within(t, a + port + b + port, c, port + d, "export all_proxy="@, 9);
        assert(d.subrange(81int, 129int) =~= "\n        unset http_proxy https_proxy all_proxy\n"@);
        assert(t =~= (a + port + b + port + c + port) + d + (Seq::empty()));
        lemma_contains_within(t, a + port + b + port + c + port, d, Seq::empty(), "\n        unset http_proxy https_proxy all_proxy\n"@, 81);
    } else {
        let a = "\nfunction praxy\n    if test \"$argv[1]\" = \"on\"\n        set -gx http_proxy http://127.0.0.1:"@;
        let b = "\n        set -gx https_proxy http://127.0.0.1:"@;
        let c = "\n        set -gx all_proxy socks5://127.0.0.1:"@;
        let d = "\n        echo \"Terminal proxy is now enabled\"\n    else if test \"$argv[1]\" = \"off\"\n        set -e http_proxy https_proxy all_proxy\n        echo \"Terminal proxy is now disabled\"\n    else\n        echo \"Usage: praxy [on|off]\"\n    end\nend\n"@;
        reveal_strlit("\nfunction praxy\n    if test \"$argv[1]\" = \"on\"\n        set -gx http_proxy http://127.0.0.1:");
        reveal_strlit("\n        set -gx https_proxy http://127.0.0.1:");
        reveal_strlit("\n        set -gx all_proxy socks5://127.0.0.1:");
        reveal_strlit("\n        echo \"Terminal proxy is now enabled\"\n    else if test \"$argv[1]\" = \"off\"\n        set -e http_proxy https_proxy all_proxy\n        echo \"Terminal proxy is now disabled\"\n    else\n        echo \"Usage: praxy [on|off]\"\n    end\nend\n");
        reveal_strlit("set -gx http_proxy ");
        reveal_strlit("set -gx https_proxy ");
        reveal_strlit("set -gx all_proxy ");
        reveal_strlit("\n        set -e http_proxy https_proxy all_proxy\n");
        assert(t == a + port + b + port + c + port + d);
        assert(a.subrange(54int, 73int) =~= "set -gx http_proxy "@);
        assert(t =~= (Seq::empty()) + a + (port + b + port + c + port + d));
        lemma_contains_within(t, Seq::empty(), a, port + b + port + c + port + d, "set -gx http_proxy "@, 54);
        assert(b.subrange(9int, 29int) =~= "set -gx https_proxy "@);
        assert(t =~= (a + port) + b + (port + c + port + d));
        lemma_contains_within(t, a + port, b, port + c + port + d, "set -gx https_proxy "@, 9);
        assert(c.subrange(9int, 27int) =~= "set -gx all_proxy "@);
        assert(t =~= (a + port + b + port) + c + (port + d));
        lemma_contains_within(t, a + port + b + port, c, port + d, "set -gx all_proxy "@, 9);
        assert(d.subrange(81int, 130int) =~= "\n        set -e http_proxy https_proxy all_proxy\n"@);
        assert(t =~= (a + port + b + port + c + port) + d + (Seq::empty()));
        lemma_contains_within(t, a + port + b + port + c + port, d, Seq::empty(), "\n        set -e http_proxy https_proxy all_proxy\n"@, 81);
    }
}

/// Each known `$SHELL` path names the shell of the same name, and a path that names a
/// shell is that shell's path under `/bin`.
pub proof fn law_shell_path_names_its_shell(s: Shell, path: Seq<char>)
    ensures
        shell_of_path("/bin/"@ + shell_name(s)) == Some(s),
        shell_of_path(path) == Some(s) ==> path == "/bin/"@ + shell_name(s),
{
    reveal_strlit("/bin/");
    reveal_strlit("bash");
    reveal_strlit("zsh");
    reveal_strlit("fish");
    reveal_strlit("/bin/bash");
    reveal_strlit("/bin/zsh");
    reveal_strlit("/bin/fish");
    assert("/bin/"@ + "bash"@ =~= "/bin/bash"@);
    assert("/bin/"@ + "zsh"@ =~= "/bin/zsh"@);
    assert("/bin/"@ + "fish"@ =~= "/bin/fish"@);
    assert("/bin/bash"@ != "/bin/zsh"@) by { assert("/bin/bash"@.len() != "/bin/zsh"@.len()); }
    assert("/bin/bash"@ != "/bin/fish"@) by { assert("/bin/bash"@[5] != "/bin/fish"@[5]); }
    assert("/bin/zsh"@ != "/bin/fish"@) by { assert("/bin/zsh"@.len() != "/bin/fish"@.len()); }
}

} // verus!

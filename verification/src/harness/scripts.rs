//! The programs that real targets run, and the files that they leave.

use crate::text::{decimal, push_decimal};
use vstd::prelude::*;

verus! {

/// `text` with every `from` replaced by `to`.
pub open spec fn replaced(text: Seq<char>, from: char, to: Seq<char>) -> Seq<char>
    decreases text.len(),
{
    if text.len() == 0 {
        Seq::empty()
    } else {
        replaced(text.drop_last(), from, to) + if text.last() == from {
            to
        } else {
            seq![text.last()]
        }
    }
}

/// Append `text` with every `from` replaced by `to`.
fn push_replaced(out: &mut String, text: &str, from: char, to: &str)
    ensures
        final(out)@ == old(out)@ + replaced(text@, from, to@),
{
    let len: usize = text.unicode_len();
    let mut i: usize = 0;
    assert(old(out)@ + Seq::<char>::empty() =~= old(out)@);
    while i < len
        invariant
            i <= len,
            len == text@.len(),
            out@ == old(out)@ + replaced(text@.take(i as int), from, to@),
        decreases len - i,
    {
        let c = text.get_char(i);
        let ghost before = out@;
        if c == from {
            out.append(to);
        } else {
            out.push(c);
        }
        i += 1;
        proof {
            let taken = text@.take(i as int);
            assert(taken.drop_last() =~= text@.take(i - 1));
            assert(taken.last() == c);
            assert(out@ =~= old(out)@ + replaced(taken, from, to@));
        }
    }
    assert(text@.take(i as int) =~= text@);
}

/// A directory as a literal of a script: with forward slashes, and its single
/// quotes escaped.
pub open spec fn script_literal(dir: Seq<char>) -> Seq<char> {
    replaced(replaced(dir, '\\', "/"@), '\'', "\\'"@)
}

fn push_script_literal(out: &mut String, dir: &str)
    ensures
        final(out)@ == old(out)@ + script_literal(dir@),
{
    let mut forward = String::new();
    push_replaced(&mut forward, dir, '\\', "/");
    assert(forward@ =~= replaced(dir@, '\\', "/"@));
    push_replaced(out, forward.as_str(), '\'', "\\'");
}

/// Python code run as `python -c`: touch the pid checkpoint, then sleep.
pub fn python_code(dir: &str) -> (code: String)
    ensures
        code@ == "import os,time; d='"@ + script_literal(dir@)
            + "'; open(os.path.join(d,'ckpt_%d.txt'%os.getpid()),'w').close(); time.sleep(60)"@,
{
    let mut code = "import os,time; d='".to_owned();
    push_script_literal(&mut code, dir);
    code.append(
        "'; open(os.path.join(d,'ckpt_%d.txt'%os.getpid()),'w').close(); time.sleep(60)",
    );
    code
}

/// Node code run as `node -e`: touch the pid checkpoint, then idle.
pub fn node_code(dir: &str) -> (code: String)
    ensures
        code@ == "require('fs').writeFileSync(require('path').join('"@ + script_literal(dir@)
            + "','ckpt_'+process.pid+'.txt'),'');setTimeout(function(){},60000)"@,
{
    let mut code = "require('fs').writeFileSync(require('path').join('".to_owned();
    push_script_literal(&mut code, dir);
    code.append("','ckpt_'+process.pid+'.txt'),'');setTimeout(function(){},60000)");
    code
}

/// The source of a managed program that touches its pid checkpoint and sleeps.
pub open spec fn csharp_code_of(dir: Seq<char>) -> Seq<char> {
    "using System;using System.IO;using System.Threading;\n"@
        + "class StorkCSharpTarget { static void Main() {\n"@ + "var d=@\""@ + replaced(
        dir,
        '"',
        "\"\""@,
    ) + "\";\n"@ + "File.WriteAllText(Path.Combine(d,\"ckpt_\"+"@
        + "System.Diagnostics.Process.GetCurrentProcess().Id+\".txt\"),\"\");\n"@
        + "Thread.Sleep(60000); }}\n"@
}

/// The source of a managed program that touches its pid checkpoint and sleeps.
/// The directory is a verbatim string, in which a quote is doubled.
pub fn csharp_code(dir: &str) -> (code: String)
    ensures
        code@ == csharp_code_of(dir@),
{
    let mut code = "using System;using System.IO;using System.Threading;\n".to_owned();
    code.append("class StorkCSharpTarget { static void Main() {\n");
    code.append("var d=@\"");
    push_replaced(&mut code, dir, '"', "\"\"");
    code.append("\";\n");
    code.append("File.WriteAllText(Path.Combine(d,\"ckpt_\"+");
    code.append("System.Diagnostics.Process.GetCurrentProcess().Id+\".txt\"),\"\");\n");
    code.append("Thread.Sleep(60000); }}\n");
    code
}

/// The runtime configuration that selects a version of the .NET runtime.
pub fn runtime_config(version: &str) -> (config: String)
    ensures
        config@
            == "{\"runtimeOptions\":{\"framework\":{\"name\":\"Microsoft.NETCore.App\",\"version\":\""@
            + version@ + "\"}}}"@,
{
    let mut config =
        "{\"runtimeOptions\":{\"framework\":{\"name\":\"Microsoft.NETCore.App\",\"version\":\"".to_owned();
    config.append(version);
    config.append("\"}}}");
    config
}

/// The name of the file that a real target writes once its main code runs.
pub open spec fn checkpoint_name_of(pid: u32) -> Seq<char> {
    "ckpt_"@ + decimal(pid as nat) + ".txt"@
}

/// The name of the file that a real target writes once its main code runs.
pub fn checkpoint_name(pid: u32) -> (name: String)
    ensures
        name@ == checkpoint_name_of(pid),
{
    let mut name = "ckpt_".to_owned();
    push_decimal(&mut name, pid as u64);
    name.append(".txt");
    name
}

/// A single quote stands unescaped.
pub open spec fn has_bare_quote(text: Seq<char>) -> bool {
    exists|i: int|
        0 <= i < text.len() && #[trigger] text[i] == '\'' && (i == 0 || text[i - 1] != '\\')
}

/// Whatever the directory is called, its literal holds no quote that would end
/// it, and no backslash but those that escape one.
pub proof fn script_literals_stay_closed(dir: Seq<char>)
    ensures
        !has_bare_quote(script_literal(dir)),
        forall|i: int|
            0 <= i < script_literal(dir).len() && #[trigger] script_literal(dir)[i] == '\\' ==> i + 1
                < script_literal(dir).len() && script_literal(dir)[i + 1] == '\'',
    decreases dir.len(),
{
    reveal_strlit("/");
    reveal_strlit("\\'");
    let forward = replaced(dir, '\\', "/"@);
    lemma_no_backslash(dir);
    lemma_escaped(forward);
}

proof fn lemma_no_backslash(dir: Seq<char>)
    ensures
        !replaced(dir, '\\', "/"@).contains('\\'),
    decreases dir.len(),
{
    reveal_strlit("/");
    if dir.len() > 0 {
        lemma_no_backslash(dir.drop_last());
        let whole = replaced(dir, '\\', "/"@);
        let start = replaced(dir.drop_last(), '\\', "/"@);
        assert forall|i: int| 0 <= i < whole.len() implies whole[i] != '\\' by {
            if i < start.len() {
                assert(whole[i] == start[i]);
                assert(start.contains(start[i]));
            }
        }
    }
}

proof fn lemma_escaped(text: Seq<char>)
    requires
        !text.contains('\\'),
    ensures
        !has_bare_quote(replaced(text, '\'', "\\'"@)),
        forall|i: int|
            0 <= i < replaced(text, '\'', "\\'"@).len() && #[trigger] replaced(
                text,
                '\'',
                "\\'"@,
            )[i] == '\\' ==> i + 1 < replaced(text, '\'', "\\'"@).len() && replaced(
                text,
                '\'',
                "\\'"@,
            )[i + 1] == '\'',
    decreases text.len(),
{
    reveal_strlit("\\'");
    if text.len() > 0 {
        let whole = replaced(text, '\'', "\\'"@);
        let start = replaced(text.drop_last(), '\'', "\\'"@);
        assert(!text.drop_last().contains('\\')) by {
            assert forall|i: int| 0 <= i < text.drop_last().len() implies text.drop_last()[i]
                != '\\' by {
                assert(text.contains(text[i]));
            }
        }
        assert(text.last() != '\\') by {
            assert(text.contains(text[text.len() - 1]));
        }
        lemma_escaped(text.drop_last());
        assert forall|i: int| 0 <= i < whole.len() && #[trigger] whole[i] == '\'' implies i > 0
            && whole[i - 1] == '\\' by {
            if i < start.len() {
                assert(start[i] == whole[i]);
                assert(i > 0 && start[i - 1] == '\\');
            }
        }
        assert forall|i: int| 0 <= i < whole.len() && #[trigger] whole[i] == '\\' implies i + 1
            < whole.len() && whole[i + 1] == '\'' by {
            if i < start.len() {
                assert(start[i] == whole[i]);
                assert(start[i + 1] == whole[i + 1]);
            }
        }
    }
}

} // verus!

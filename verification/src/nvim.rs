//! What Neovim sends back for `SgGet selected`, its rendering as a Markdown
//! code block, and the mapping of Neovim notifications to application
//! events.

use vstd::prelude::*;

use crate::text::chars_of;
use crate::window_manager::WindowKind;

verus! {

broadcast use vstd::string::group_string_axioms;

/// The reply of the Neovim plugin to `SgGet selected`: the selected lines
/// of a buffer.
#[derive(Debug)]
pub struct NvimResponse {
    pub version: u32,
    pub filename: String,
    pub filetype: String,
    pub start: u32,
    pub stop: u32,
    pub content: Vec<String>,
}

/// Each line followed by a newline.
pub open spec fn lines_with_newlines(content: Seq<String>) -> Seq<char>
    decreases content.len(),
{
    if content.len() == 0 {
        Seq::empty()
    } else {
        lines_with_newlines(content.drop_last()) + content.last()@ + "\n"@
    }
}

/// A fenced Markdown code block of language `ft` holding `content`.
pub open spec fn spec_as_md(content: Seq<String>, ft: Seq<char>) -> Seq<char> {
    "```"@ + ft + "\n"@ + lines_with_newlines(content) + "```\n"@
}

/// The code block of no lines is the opening fence, the language and a
/// newline, then the closing fence.
pub proof fn law_as_md_empty(ft: Seq<char>)
    ensures
        spec_as_md(Seq::<String>::empty(), ft) == "```"@ + ft + "\n"@ + "```\n"@,
{
    assert(spec_as_md(Seq::<String>::empty(), ft) =~= "```"@ + ft + "\n"@ + "```\n"@);
}

/// One more line of content adds that line, verbatim and whatever it holds
/// (an empty line too), and one newline just before the closing fence:
/// every line of the selection stands in the code block, in order.
pub proof fn law_as_md_push(content: Seq<String>, line: String, ft: Seq<char>)
    ensures
        spec_as_md(content.push(line), ft) == spec_as_md(content, ft).subrange(
            0,
            spec_as_md(content, ft).len() - 4,
        ) + line@ + "\n"@ + "```\n"@,
        spec_as_md(content.push(line), ft).len() == spec_as_md(content, ft).len() + line@.len() + 1,
{
    reveal_strlit("```\n");
    reveal_strlit("\n");
    assert(content.push(line).drop_last() =~= content);
    assert(content.push(line).last() == line);
    let head = "```"@ + ft + "\n"@ + lines_with_newlines(content);
    assert(spec_as_md(content, ft) =~= head + "```\n"@);
    assert(spec_as_md(content, ft).subrange(0, spec_as_md(content, ft).len() - 4) =~= head);
    assert(spec_as_md(content.push(line), ft) =~= head + line@ + "\n"@ + "```\n"@);
}

impl NvimResponse {
    /// The selected lines as a Markdown code block tagged with the file type.
    pub fn content_as_md(&self) -> (r: String)
        ensures
            r@ == spec_as_md(self.content@, self.filetype@),
    {
        as_md(&self.content, self.filetype.as_str())
    }
}

/// The lines of `content` as a fenced code block of language `ft`.
pub fn as_md(content: &Vec<String>, ft: &str) -> (r: String)
    ensures
        r@ == spec_as_md(content@, ft@),
{
    let mut buf = String::new();
    buf.append("```");
    buf.append(ft);
    buf.append("\n");
    let ghost head = buf@;
    let mut i: usize = 0;
    while i < content.len()
        invariant
            i <= content@.len(),
            head == "```"@ + ft@ + "\n"@,
            buf@ == head + lines_with_newlines(content@.take(i as int)),
        decreases content@.len() - i,
    {
        buf.append(content[i].as_str());
        buf.append("\n");
        proof {
            let t = content@.take(i + 1);
            assert(t.drop_last() =~= content@.take(i as int));
            assert(t.last() == content@[i as int]);
        }
        i = i + 1;
    }
    assert(content@.take(i as int) =~= content@);
    buf.append("```\n");
    buf
}

/// `a` and `b` hold the same characters.
pub fn str_eq(a: &str, b: &str) -> (r: bool)
    ensures
        r == (a@ == b@),
{
    let x = chars_of(a);
    let y = chars_of(b);
    if x.len() != y.len() {
        return false;
    }
    let mut i: usize = 0;
    while i < x.len()
        invariant
            x@ == a@,
            y@ == b@,
            x@.len() == y@.len(),
            i <= x@.len(),
            forall|j: int| 0 <= j < i ==> x@[j] == y@[j],
        decreases x@.len() - i,
    {
        if x[i] != y[i] {
            return false;
        }
        i = i + 1;
    }
    assert(x@ =~= y@);
    true
}

/// What the Neovim handler forwards for a notification called `name`:
/// `test`, `ai` and `init` are forwarded as themselves, and so is any other
/// name (after a warning).
pub fn notify_payload(name: &str) -> (r: String)
    ensures
        r@ == name@,
{
    name.to_string()
}

/// What the Neovim worker makes of a forwarded notification.
#[derive(Debug, Clone, Copy, PartialEq, Eq, Structural)]
pub enum WorkerEvent {
    Todo,
    OpenWindowRequested(WindowKind),
    Noop,
}

/// `"test"` is acknowledged, `"ai"` asks for an agent window, anything else
/// is ignored.
pub fn worker_event(input: &str) -> (r: WorkerEvent)
    ensures
        input@ == "test"@ ==> r == WorkerEvent::Todo,
        input@ == "ai"@ ==> r == WorkerEvent::OpenWindowRequested(WindowKind::Agent),
        input@ != "test"@ && input@ != "ai"@ ==> r == WorkerEvent::Noop,
{
    proof {
        reveal_strlit("test");
        reveal_strlit("ai");
        assert("test"@.len() == 4);
        assert("ai"@.len() == 2);
    }
    if str_eq(input, "test") {
        WorkerEvent::Todo
    } else if str_eq(input, "ai") {
        WorkerEvent::OpenWindowRequested(WindowKind::Agent)
    } else {
        WorkerEvent::Noop
    }
}

} // verus!

//! The template renderer: produces either the reusable list fragment or the
//! full page around it from the same view models. Descriptions are
//! HTML-escaped; ids are rendered in decimal.

use vstd::prelude::*;
use vstd::string::*;

use crate::view::{TodoView, ViewModel};

verus! {

/// The escape of one character in HTML text or attribute position.
pub open spec fn escaped_char(c: char) -> Seq<char> {
    if c == '&' {
        "&amp;"@
    } else if c == '<' {
        "&lt;"@
    } else if c == '>' {
        "&gt;"@
    } else if c == '"' {
        "&quot;"@
    } else if c == '\'' {
        "&#39;"@
    } else {
        seq![c]
    }
}

/// The HTML escape of a whole string: each character replaced by its escape.
pub open spec fn spec_escape(s: Seq<char>) -> Seq<char>
    decreases s.len(),
{
    if s.len() == 0 {
        Seq::<char>::empty()
    } else {
        spec_escape(s.drop_last()) + escaped_char(s.last())
    }
}

/// HTML-escapes a description for embedding in markup.
pub fn escape_html(s: &str) -> (r: String)
    ensures
        r@ == spec_escape(s@),
{
    let n = s.unicode_len();
    let mut out = String::new();
    for i in 0..n
        invariant
            n == s@.len(),
            out@ == spec_escape(s@.subrange(0, i as int)),
    {
        proof {
            assert(s@.subrange(0, i as int + 1).drop_last() =~= s@.subrange(0, i as int));
            assert(s@.subrange(0, i as int + 1).last() == s@[i as int]);
        }
        let c = s.get_char(i);
        if c == '&' {
            out.append("&amp;");
        } else if c == '<' {
            out.append("&lt;");
        } else if c == '>' {
            out.append("&gt;");
        } else if c == '"' {
            out.append("&quot;");
        } else if c == '\'' {
            out.append("&#39;");
        } else {
            let piece = s.substring_char(i, i + 1);
            assert(piece@ =~= seq![s@[i as int]]);
            out.append(piece);
        }
        assert(out@ =~= spec_escape(s@.subrange(0, i as int + 1)));
    }
    proof {
        assert(s@.subrange(0, n as int) =~= s@);
    }
    out
}

/// The decimal digit character for a value below ten.
pub open spec fn digit_char(d: int) -> char {
    if d == 0 {
        '0'
    } else if d == 1 {
        '1'
    } else if d == 2 {
        '2'
    } else if d == 3 {
        '3'
    } else if d == 4 {
        '4'
    } else if d == 5 {
        '5'
    } else if d == 6 {
        '6'
    } else if d == 7 {
        '7'
    } else if d == 8 {
        '8'
    } else {
        '9'
    }
}

/// The decimal rendering of a nonnegative value, most significant digit
/// first, with no leading zeros (a lone zero for zero).
pub open spec fn spec_u64_dec(n: nat) -> Seq<char>
    decreases n,
{
    if n < 10 {
        seq![digit_char(n as int)]
    } else {
        spec_u64_dec(n / 10) + seq![digit_char((n % 10) as int)]
    }
}

/// The decimal rendering of a signed value: a minus sign before the
/// rendering of the magnitude when negative.
pub open spec fn spec_i64_dec(n: int) -> Seq<char> {
    if n < 0 {
        seq!['-'] + spec_u64_dec((-n) as nat)
    } else {
        spec_u64_dec(n as nat)
    }
}

fn push_digit(out: &mut String, d: u64)
    requires
        d < 10,
    ensures
        final(out)@ == old(out)@ + seq![digit_char(d as int)],
{
    if d == 0 {
        out.append("0");
        proof {
            reveal_strlit("0");
            assert("0"@ =~= seq![digit_char(0)]);
        }
    } else if d == 1 {
        out.append("1");
        proof {
            reveal_strlit("1");
            assert("1"@ =~= seq![digit_char(1)]);
        }
    } else if d == 2 {
        out.append("2");
        proof {
            reveal_strlit("2");
            assert("2"@ =~= seq![digit_char(2)]);
        }
    } else if d == 3 {
        out.append("3");
        proof {
            reveal_strlit("3");
            assert("3"@ =~= seq![digit_char(3)]);
        }
    } else if d == 4 {
        out.append("4");
        proof {
            reveal_strlit("4");
            assert("4"@ =~= seq![digit_char(4)]);
        }
    } else if d == 5 {
        out.append("5");
        proof {
            reveal_strlit("5");
            assert("5"@ =~= seq![digit_char(5)]);
        }
    } else if d == 6 {
        out.append("6");
        proof {
            reveal_strlit("6");
            assert("6"@ =~= seq![digit_char(6)]);
        }
    } else if d == 7 {
        out.append("7");
        proof {
            reveal_strlit("7");
            assert("7"@ =~= seq![digit_char(7)]);
        }
    } else if d == 8 {
        out.append("8");
        proof {
            reveal_strlit("8");
            assert("8"@ =~= seq![digit_char(8)]);
        }
    } else {
        out.append("9");
        proof {
            reveal_strlit("9");
            assert("9"@ =~= seq![digit_char(9)]);
        }
    }
}

fn push_u64_dec(out: &mut String, n: u64)
    ensures
        final(out)@ == old(out)@ + spec_u64_dec(n as nat),
    decreases n,
{
    if n < 10 {
        push_digit(out, n);
    } else {
        push_u64_dec(out, n / 10);
        push_digit(out, n % 10);
        assert(final(out)@ =~= old(out)@ + spec_u64_dec(n as nat));
    }
}

fn push_i64_dec(out: &mut String, n: i64)
    ensures
        final(out)@ == old(out)@ + spec_i64_dec(n as int),
{
    if n < 0 {
        out.append("-");
        proof {
            reveal_strlit("-");
            assert("-"@ =~= seq!['-']);
        }
        let m128: i128 = -(n as i128);
        let m: u64 = m128 as u64;
        assert(m as nat == (-(n as int)) as nat);
        push_u64_dec(out, m);
        assert(final(out)@ =~= old(out)@ + spec_i64_dec(n as int));
    } else {
        push_u64_dec(out, n as u64);
    }
}

/// Renders one id in decimal.
pub fn render_id(id: i64) -> (r: String)
    ensures
        r@ == spec_i64_dec(id as int),
{
    let mut out = String::new();
    push_i64_dec(&mut out, id);
    out
}

/// The markup of one row: an inline edit form when the row is marked for
/// editing; otherwise the (struck-through when done) description with
/// done-or-undo, edit and delete links.
pub open spec fn spec_render_item(v: ViewModel) -> Seq<char> {
    if v.edit {
        "<li id=\"todo-"@ + spec_i64_dec(v.id) + "\"><form method=\"post\" action=\"/todos/"@
            + spec_i64_dec(v.id) + "\"><input name=\"description\" value=\""@ + spec_escape(
            v.description,
        ) + "\"><button>save</button></form></li>"@
    } else {
        "<li id=\"todo-"@ + spec_i64_dec(v.id) + "\">"@ + (if v.done {
            "<s>"@ + spec_escape(v.description) + "</s><a href=\"/todos/"@ + spec_i64_dec(v.id)
                + "/undo\">undo</a>"@
        } else {
            spec_escape(v.description) + "<a href=\"/todos/"@ + spec_i64_dec(v.id)
                + "/done\">done</a>"@
        }) + "<a href=\"/todos/"@ + spec_i64_dec(v.id) + "\">edit</a><a href=\"/todos/"@
            + spec_i64_dec(v.id) + "/delete\">delete</a></li>"@
    }
}

/// Renders one row.
pub fn render_item(v: &TodoView) -> (r: String)
    ensures
        r@ == spec_render_item(v@),
{
    let mut out = String::new();
    out.append("<li id=\"todo-");
    push_i64_dec(&mut out, v.id);
    if v.edit {
        out.append("\"><form method=\"post\" action=\"/todos/");
        push_i64_dec(&mut out, v.id);
        out.append("\"><input name=\"description\" value=\"");
        let esc = escape_html(v.description.as_str());
        out.append(esc.as_str());
        out.append("\"><button>save</button></form></li>");
    } else {
        out.append("\">");
        if v.done {
            out.append("<s>");
            let esc = escape_html(v.description.as_str());
            out.append(esc.as_str());
            out.append("</s><a href=\"/todos/");
            push_i64_dec(&mut out, v.id);
            out.append("/undo\">undo</a>");
        } else {
            let esc = escape_html(v.description.as_str());
            out.append(esc.as_str());
            out.append("<a href=\"/todos/");
            push_i64_dec(&mut out, v.id);
            out.append("/done\">done</a>");
        }
        out.append("<a href=\"/todos/");
        push_i64_dec(&mut out, v.id);
        out.append("\">edit</a><a href=\"/todos/");
        push_i64_dec(&mut out, v.id);
        out.append("/delete\">delete</a></li>");
    }
    assert(out@ =~= spec_render_item(v@));
    out
}

/// The concatenated markup of all rows, in order.
pub open spec fn spec_render_items(vs: Seq<ViewModel>) -> Seq<char>
    decreases vs.len(),
{
    if vs.len() == 0 {
        Seq::<char>::empty()
    } else {
        spec_render_items(vs.drop_last()) + spec_render_item(vs.last())
    }
}

/// The reusable list fragment: the rows inside one list element.
pub open spec fn spec_render_list(vs: Seq<ViewModel>) -> Seq<char> {
    "<ul id=\"todos\">"@ + spec_render_items(vs) + "</ul>"@
}

/// Renders the list fragment alone, for a partial-page update.
pub fn render_list(views: &Vec<TodoView>) -> (r: String)
    ensures
        r@ == spec_render_list(views@.map_values(|v: TodoView| v@)),
{
    let ghost vs = views@.map_values(|v: TodoView| v@);
    let mut out = String::new();
    out.append("<ul id=\"todos\">");
    let n = views.len();
    for i in 0..n
        invariant
            n == views.len(),
            vs == views@.map_values(|v: TodoView| v@),
            out@ == "<ul id=\"todos\">"@ + spec_render_items(vs.subrange(0, i as int)),
    {
        proof {
            assert(vs.subrange(0, i as int + 1).drop_last() =~= vs.subrange(0, i as int));
            assert(vs.subrange(0, i as int + 1).last() == vs[i as int]);
        }
        let piece = render_item(&views[i]);
        out.append(piece.as_str());
        assert(out@ =~= "<ul id=\"todos\">"@ + spec_render_items(vs.subrange(0, i as int + 1)));
    }
    proof {
        assert(vs.subrange(0, n as int) =~= vs);
    }
    out.append("</ul>");
    assert(out@ =~= spec_render_list(vs));
    out
}

/// The page chrome above the list: document head, heading, and the creation
/// form posting to the collection path.
pub open spec fn spec_page_head() -> Seq<char> {
    "<!DOCTYPE html><html><head><title>todos</title></head><body><h1>todos</h1><form method=\"post\" action=\"/todos\"><input name=\"description\"><button>add</button></form>"@
}

/// The page chrome below the list.
pub open spec fn spec_page_tail() -> Seq<char> {
    "</body></html>"@
}

/// The full page: the chrome with the same list fragment between.
pub open spec fn spec_render_page(vs: Seq<ViewModel>) -> Seq<char> {
    spec_page_head() + spec_render_list(vs) + spec_page_tail()
}

/// Renders the full page.
pub fn render_page(views: &Vec<TodoView>) -> (r: String)
    ensures
        r@ == spec_render_page(views@.map_values(|v: TodoView| v@)),
{
    let mut out = String::new();
    out.append(
        "<!DOCTYPE html><html><head><title>todos</title></head><body><h1>todos</h1><form method=\"post\" action=\"/todos\"><input name=\"description\"><button>add</button></form>",
    );
    let list = render_list(views);
    out.append(list.as_str());
    out.append("</body></html>");
    assert(out@ =~= spec_render_page(views@.map_values(|v: TodoView| v@)));
    out
}

/// The fragment renders byte-identically to the corresponding sub-section
/// of the full page: the page is head, then exactly the fragment, then tail.
pub proof fn lemma_fragment_embedded(vs: Seq<ViewModel>)
    ensures
        spec_render_page(vs) == spec_page_head() + spec_render_list(vs) + spec_page_tail(),
        spec_render_page(vs).subrange(
            spec_page_head().len() as int,
            spec_page_head().len() + spec_render_list(vs).len() as int,
        ) =~= spec_render_list(vs),
{
}

} // verus!

//! Contents of the requests that the command-line client sends to deploy
//! and manage functions: the listing of a function's directory and the
//! management commands.

use vstd::prelude::*;
use crate::json::{json_quoted, quote_json};
use crate::text::{join_strings, join_with, push_str};

verus! {

/// The text that `format!("{:?}", s)` gives for a string (std's `Debug`:
/// quoted, with escapes).
pub uninterp spec fn debug_quoted(s: Seq<char>) -> Seq<char>;

/// `format!("{:?}", s)` on a string slice. Claimed: the result is
/// `debug_quoted` of the characters of `s`; what that text is is left to
/// std's `Debug` implementation and not stated.
#[verifier::external_body]
fn debug_str(s: &str) -> (r: String)
    ensures
        r@ == debug_quoted(s@),
{
    format!("{:?}", s)
}

/// `Debug` text of a list whose elements have the given texts.
pub open spec fn debug_list_spec(quoted: Seq<Seq<char>>) -> Seq<char> {
    "["@ + join_with(quoted, ", "@) + "]"@
}

/// The directory listing of a function, from the `Debug` texts of its
/// directories, of its files' paths and of their contents.
pub open spec fn dir_listing_spec(
    dirs_q: Seq<Seq<char>>,
    files_q: Seq<Seq<char>>,
    contents_q: Seq<Seq<char>>,
) -> Seq<char> {
    let entries = Seq::new(
        files_q.len(),
        |i: int| " "@ + files_q[i] + " : "@ + contents_q[i] + " "@,
    );
    " \"dirs\" : "@ + debug_list_spec(dirs_q) + " , \"file_name\" : "@ + debug_list_spec(files_q)
        + " , \"files\" : { "@ + join_with(entries, ","@) + " } "@
}

/// `Debug` text of each string.
pub open spec fn debug_all(s: Seq<Seq<char>>) -> Seq<Seq<char>> {
    s.map_values(|x: Seq<char>| debug_quoted(x))
}

fn debug_list(quoted: &Vec<String>) -> (r: String)
    ensures
        r@ == debug_list_spec(quoted.deep_view()),
{
    let mut out = String::new();
    push_str(&mut out, "[");
    let inner = join_strings(quoted, ", ");
    push_str(&mut out, inner.as_str());
    push_str(&mut out, "]");
    out
}

/// The directory listing from already quoted texts (see `dir_listing_spec`).
pub fn dir_listing_from(dirs_q: &Vec<String>, files_q: &Vec<String>, contents_q: &Vec<String>) -> (r:
    String)
    requires
        files_q.len() == contents_q.len(),
    ensures
        r@ == dir_listing_spec(dirs_q.deep_view(), files_q.deep_view(), contents_q.deep_view()),
{
    let ghost fq = files_q.deep_view();
    let ghost cq = contents_q.deep_view();
    let ghost spec_entries = Seq::new(fq.len(), |i: int| " "@ + fq[i] + " : "@ + cq[i] + " "@);
    let mut entries: Vec<String> = Vec::new();
    let mut i: usize = 0;
    while i < files_q.len()
        invariant
            fq == files_q.deep_view(),
            cq == contents_q.deep_view(),
            fq.len() == cq.len(),
            spec_entries == Seq::new(fq.len(), |i: int| " "@ + fq[i] + " : "@ + cq[i] + " "@),
            i <= fq.len(),
            entries.deep_view() =~= spec_entries.take(i as int),
        decreases fq.len() - i,
    {
        let mut e = String::new();
        push_str(&mut e, " ");
        push_str(&mut e, files_q[i].as_str());
        push_str(&mut e, " : ");
        push_str(&mut e, contents_q[i].as_str());
        push_str(&mut e, " ");
        let ghost old_entries = entries.deep_view();
        entries.push(e);
        assert(entries.deep_view() =~= old_entries.push(spec_entries[i as int]));
        i = i + 1;
    }
    assert(spec_entries.take(fq.len() as int) =~= spec_entries);
    let mut out = String::new();
    push_str(&mut out, " \"dirs\" : ");
    let d = debug_list(dirs_q);
    push_str(&mut out, d.as_str());
    push_str(&mut out, " , \"file_name\" : ");
    let f = debug_list(files_q);
    push_str(&mut out, f.as_str());
    push_str(&mut out, " , \"files\" : { ");
    let body = join_strings(&entries, ",");
    push_str(&mut out, body.as_str());
    push_str(&mut out, " } ");
    out
}

fn debug_each(items: &Vec<String>) -> (r: Vec<String>)
    ensures
        r.deep_view() == debug_all(items.deep_view()),
{
    let mut out: Vec<String> = Vec::new();
    let mut i: usize = 0;
    while i < items.len()
        invariant
            i <= items@.len(),
            out.deep_view() =~= debug_all(items.deep_view()).take(i as int),
        decreases items@.len() - i,
    {
        let q = debug_str(items[i].as_str());
        let ghost old_out = out.deep_view();
        out.push(q);
        assert(out.deep_view() =~= old_out.push(debug_all(items.deep_view())[i as int]));
        i = i + 1;
    }
    assert(debug_all(items.deep_view()).take(items@.len() as int) =~= debug_all(items.deep_view()));
    out
}

/// The directory listing of a function: its directories, its files' paths
/// and their contents, each written as `Debug` text.
pub fn dir_listing(dirs: &Vec<String>, files: &Vec<String>, contents: &Vec<String>) -> (r: String)
    requires
        files.len() == contents.len(),
    ensures
        r@ == dir_listing_spec(
            debug_all(dirs.deep_view()),
            debug_all(files.deep_view()),
            debug_all(contents.deep_view()),
        ),
{
    let dq = debug_each(dirs);
    let fq = debug_each(files);
    let cq = debug_each(contents);
    assert(fq@.len() == fq.deep_view().len());
    assert(cq@.len() == cq.deep_view().len());
    dir_listing_from(&dq, &fq, &cq)
}

/// The content of a request that creates a function, from the `Debug`
/// texts of its language and prototype and its directory listing.
pub open spec fn create_content_spec(lang_q: Seq<char>, proto_q: Seq<char>, listing: Seq<char>) -> Seq<
    char,
> {
    "{ \"msg_type\": \"MANAGE\" , \"action\": \"create\",\"lang\": "@ + lang_q
        + ", \"prototype\": "@ + proto_q + ", "@ + listing + " }"@
}

/// The content of a request that creates a function, from already quoted
/// texts.
pub fn create_content_from(lang_q: &str, proto_q: &str, listing: &str) -> (r: String)
    ensures
        r@ == create_content_spec(lang_q@, proto_q@, listing@),
{
    let mut out = String::new();
    push_str(&mut out, "{ \"msg_type\": \"MANAGE\" , \"action\": \"create\",\"lang\": ");
    push_str(&mut out, lang_q);
    push_str(&mut out, ", \"prototype\": ");
    push_str(&mut out, proto_q);
    push_str(&mut out, ", ");
    push_str(&mut out, listing);
    push_str(&mut out, " }");
    out
}

/// The content of a request that creates a function in `lang` with
/// `prototype`, whose directory listing is `listing`.
pub fn create_content(lang: &str, prototype: &str, listing: &str) -> (r: String)
    ensures
        r@ == create_content_spec(debug_quoted(lang@), debug_quoted(prototype@), listing@),
{
    let l = debug_str(lang);
    let p = debug_str(prototype);
    create_content_from(l.as_str(), p.as_str(), listing)
}

/// A management command for a hosted function.
#[derive(Clone, Copy, Debug, PartialEq, Eq, Structural)]
pub enum ManageAction {
    Update,
    Delete,
    Publish,
}

/// The name of a command that names its function.
pub open spec fn action_name(a: ManageAction) -> Seq<char> {
    match a {
        ManageAction::Update => "update"@,
        ManageAction::Delete => "delete"@,
        ManageAction::Publish => "publish"@,
    }
}

/// JSON value of an optional function id: its string literal, or `null`.
pub open spec fn json_opt_string(id: Option<Seq<char>>) -> Seq<char> {
    match id {
        Some(s) => json_quoted(s),
        None => "null"@,
    }
}

/// The content of a management command, as the JSON object `serde_json`
/// writes (keys in sorted order): an update carries only the message kind,
/// a deletion or publication also its action and the function id.
pub open spec fn manage_content_spec(a: ManageAction, id: Option<Seq<char>>) -> Seq<char> {
    match a {
        ManageAction::Update => "{\"msg_type\":\"MANAGE\"}"@,
        _ => "{\"action\":\""@ + action_name(a) + "\",\"id\":"@ + json_opt_string(id)
            + ",\"msg_type\":\"MANAGE\"}"@,
    }
}

/// The content of a management command for the function `id`.
pub fn manage_content(a: ManageAction, id: Option<&str>) -> (r: String)
    ensures
        r@ == manage_content_spec(a, match id {
            Some(s) => Some(s@),
            None => None,
        }),
{
    let mut out = String::new();
    match a {
        ManageAction::Update => {
            push_str(&mut out, "{\"msg_type\":\"MANAGE\"}");
        },
        _ => {
            push_str(&mut out, "{\"action\":\"");
            match a {
                ManageAction::Delete => push_str(&mut out, "delete"),
                _ => push_str(&mut out, "publish"),
            }
            push_str(&mut out, "\",\"id\":");
            match id {
                Some(s) => {
                    let q = quote_json(s);
                    push_str(&mut out, q.as_str());
                },
                None => push_str(&mut out, "null"),
            }
            push_str(&mut out, ",\"msg_type\":\"MANAGE\"}");
        },
    }
    out
}

} // verus!

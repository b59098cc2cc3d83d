//! The messages the bot sends.
use crate::text::{chars_of, string_from_chars};
use vstd::prelude::*;

verus! {

/// An embed: a title and a description.
#[derive(Clone, Debug, PartialEq, Eq)]
pub struct Embed {
    pub title: String,
    pub description: String,
}

/// A file sent with a message: text under a file name, or a file on disk.
#[derive(Clone, Debug, PartialEq, Eq)]
pub enum Attachment {
    Text { name: String, data: String },
    File { path: String },
}

/// A message: its content, embeds and attached files.
#[derive(Clone, Debug, PartialEq, Eq)]
pub struct Message {
    pub content: String,
    pub embeds: Vec<Embed>,
    pub files: Vec<Attachment>,
}

fn concat(parts: &Vec<&str>) -> (r: String)
    ensures
        r@ == parts@.map_values(|p: &str| p@).fold_left(Seq::<char>::empty(), |acc: Seq<char>, x: Seq<char>| acc + x),
{
    let mut out: Vec<char> = Vec::new();
    let mut i: usize = 0;
    while i < parts.len()
        invariant
            0 <= i <= parts@.len(),
            out@ == parts@.map_values(|p: &str| p@).take(i as int).fold_left(
                Seq::<char>::empty(),
                |acc: Seq<char>, x: Seq<char>| acc + x,
            ),
        decreases parts.len() - i,
    {
        let mut c = chars_of(parts[i]);
        let ghost before = out@;
        out.append(&mut c);
        proof {
            let s = parts@.map_values(|p: &str| p@);
            assert(s.take(i + 1).drop_last() =~= s.take(i as int));
            assert(s.take(i + 1).last() == parts@[i as int]@);
        }
        i += 1;
    }
    proof {
        let s = parts@.map_values(|p: &str| p@);
        assert(s.take(parts@.len() as int) =~= s);
    }
    string_from_chars(out.as_slice())
}

/// The message of a reminder that is due: the reminder's text, and an embed
/// titled with it that names the time stamp and the note's file.
pub fn reminder_notification(reminder_msg: &str, time: &str, file: &str) -> (r: Message)
    ensures
        r.content@ == reminder_msg@,
        r.embeds@.len() == 1,
        r.embeds@[0].title@ == reminder_msg@,
        r.embeds@[0].description@ == "time: "@ + time@ + "\nfile: "@ + file@,
        r.files@.len() == 0,
{
    let mut parts: Vec<&str> = Vec::new();
    parts.push("time: ");
    parts.push(time);
    parts.push("\nfile: ");
    parts.push(file);
    let description = concat(&parts);
    proof {
        let s = parts@.map_values(|p: &str| p@);
        assert(s =~= seq!["time: "@, time@, "\nfile: "@, file@]);
        reveal_with_fuel(Seq::fold_left, 5);
        assert(s.fold_left(Seq::<char>::empty(), |acc: Seq<char>, x: Seq<char>| acc + x) =~= "time: "@
            + time@ + "\nfile: "@ + file@);
    }
    let mut embeds = Vec::new();
    embeds.push(Embed { title: String::from_str(reminder_msg), description });
    Message { content: String::from_str(reminder_msg), embeds, files: Vec::new() }
}


/// The longest TODO digest (in bytes) that goes out as message text; a
/// longer one is sent as the file `TODO_tasks.txt`.
pub open spec fn digest_limit() -> int {
    2000
}

/// The message that carries the TODO digest `msg`: none for an empty digest,
/// the digest as text below 2000 bytes, else an empty text with the digest
/// attached as `TODO_tasks.txt`.
pub fn daily_todo_message(msg: &str) -> (r: Option<Message>)
    ensures
        msg.len() == 0 <==> r is None,
        r matches Some(m) ==> m.embeds@.len() == 0 && if msg.len() < 2000 {
            m.content@ == msg@ && m.files@.len() == 0
        } else {
            &&& m.content@ == Seq::<char>::empty()
            &&& m.files@.len() == 1
            &&& m.files@[0] matches Attachment::Text { name, data }
            &&& name@ == "TODO_tasks.txt"@
            &&& data@ == msg@
        },
{
    let n = msg.len();
    if n == 0 {
        None
    } else if n < 2000 {
        Some(Message { content: String::from_str(msg), embeds: Vec::new(), files: Vec::new() })
    } else {
        let mut files = Vec::new();
        files.push(
            Attachment::Text {
                name: String::from_str("TODO_tasks.txt"),
                data: String::from_str(msg),
            },
        );
        Some(Message { content: String::new(), embeds: Vec::new(), files })
    }
}

/// The message that reports the conflict copy `file_name` (relative to the
/// vault root), with the file at `file` attached.
pub fn file_sync_conflict_message(file_name: &str, file: &str) -> (r: Message)
    ensures
        r.content@ == "file sync conflict: "@ + file_name@,
        r.embeds@.len() == 0,
        r.files@.len() == 1,
        (r.files@[0] matches Attachment::File { path } && path@ == file@),
{
    let content = crate::file_scanner::sync_conflict::conflict_notice(file_name);
    let mut files = Vec::new();
    files.push(Attachment::File { path: String::from_str(file) });
    Message { content, embeds: Vec::new(), files }
}

/// The message that reports an error: its text.
pub fn rust_error_message(err_msg: &str) -> (r: Message)
    ensures
        r.content@ == err_msg@,
        r.embeds@.len() == 0,
        r.files@.len() == 0,
{
    Message { content: String::from_str(err_msg), embeds: Vec::new(), files: Vec::new() }
}

} // verus!

//! The participant's side: where the relay is, and how the lines that a
//! person types become the requests that go to it.

use vstd::prelude::*;
use vstd::string::*;

verus! {

/// One line of chat on its way to the relay.
#[derive(Debug)]
pub struct MessageRequest {
    pub room_id: i32,
    pub name: String,
    pub body: String,
}

/// What `str::trim` makes of a line: the line without the white space at
/// its two ends.
pub uninterp spec fn trimmed(line: Seq<char>) -> Seq<char>;

/// `str::trim` returns the part of the line that `trimmed` names.
pub assume_specification[ str::trim ](line: &str) -> (text: &str)
    ensures
        text@ == trimmed(line@),
;

/// Whether `text` is the word that ends the conversation: a single `q`.
pub open spec fn is_quit(text: Seq<char>) -> bool {
    text == seq!['q']
}

/// The lines of one participant in one room.
pub struct InputStream {
    room_id: i32,
    name: String,
    current: String,
}

impl InputStream {
    /// The room that the requests are addressed to.
    pub closed spec fn room_id(&self) -> i32 {
        self.room_id
    }

    /// The name that the requests carry.
    pub closed spec fn name(&self) -> String {
        self.name
    }

    /// The text that was taken last.
    pub closed spec fn current(&self) -> String {
        self.current
    }

    /// A stream for `name` in room `room_id` that has taken no text yet.
    pub fn new(room_id: i32, name: String) -> (stream: InputStream)
        ensures
            stream.room_id() == room_id,
            stream.name() == name,
            stream.current()@ == Seq::<char>::empty(),
    {
        InputStream { room_id, name, current: String::new() }
    }

    /// The text that was taken last.
    pub fn last_text(&self) -> (text: &String)
        ensures
            *text == self.current(),
    {
        &self.current
    }

    /// Takes `text` as the participant's next words. The answer is the
    /// request that carries them, or nothing where the text is the quit word.
    pub fn submit(&mut self, text: String) -> (request: Option<MessageRequest>)
        ensures
            final(self).room_id() == old(self).room_id(),
            final(self).name() == old(self).name(),
            final(self).current() == text,
            is_quit(text@) ==> request.is_none(),
            !is_quit(text@) ==> request == Some(
                MessageRequest { room_id: old(self).room_id(), name: old(self).name(), body: text },
            ),
    {
        self.current = text;
        let text = self.current.as_str();
        let quit = text.unicode_len() == 1 && text.get_char(0) == 'q';
        if quit {
            assert(self.current@ =~= seq!['q']);
            return None;
        }
        Some(
            MessageRequest {
                room_id: self.room_id,
                name: self.name.clone(),
                body: self.current.clone(),
            },
        )
    }

    /// Takes one line as it was read from the terminal: trims it and hands
    /// the rest to `submit`.
    pub fn next(&mut self, line: &str) -> (request: Option<MessageRequest>)
        ensures
            final(self).room_id() == old(self).room_id(),
            final(self).name() == old(self).name(),
            final(self).current()@ == trimmed(line@),
            match request {
                Some(r) => {
                    &&& !is_quit(trimmed(line@))
                    &&& r.room_id == old(self).room_id()
                    &&& r.name == old(self).name()
                    &&& r.body@ == trimmed(line@)
                },
                None => is_quit(trimmed(line@)),
            },
    {
        let text = line.trim().to_owned();
        self.submit(text)
    }

    /// One turn of the sending loop: takes the line that was read, as `next`
    /// does, and answers with the request to send. There is none, and the
    /// loop ends, where the participant quit or where `interrupted` says that
    /// a signal to stop arrived while the line was awaited.
    pub fn next_request(
        &mut self,
        line: &str,
        interrupted: bool,
    ) -> (request: Option<MessageRequest>)
        ensures
            final(self).room_id() == old(self).room_id(),
            final(self).name() == old(self).name(),
            final(self).current()@ == trimmed(line@),
            match request {
                Some(r) => {
                    &&& !interrupted
                    &&& !is_quit(trimmed(line@))
                    &&& r.room_id == old(self).room_id()
                    &&& r.name == old(self).name()
                    &&& r.body@ == trimmed(line@)
                },
                None => interrupted || is_quit(trimmed(line@)),
            },
    {
        let request = self.next(line);
        if interrupted {
            None
        } else {
            request
        }
    }
}

/// The address at which a participant reaches the relay: the scheme that
/// `tls` asks for, the host, and the port where one is given.
pub open spec fn url_of(tls: bool, domain: Seq<char>, port: Option<Seq<char>>) -> Seq<char> {
    let scheme = if tls {
        seq!['h', 't', 't', 'p', 's']
    } else {
        seq!['h', 't', 't', 'p']
    };
    let tail = match port {
        Some(p) => seq![':'] + p,
        None => Seq::<char>::empty(),
    };
    scheme + seq![':', '/', '/'] + domain + tail
}

/// The view of an optional string.
pub open spec fn text_of(port: Option<String>) -> Option<Seq<char>> {
    match port {
        Some(p) => Some(p@),
        None => None,
    }
}

/// The relay's address, built from what the command line gave.
pub fn server_url(tls: bool, domain: &str, port: &Option<String>) -> (url: String)
    ensures
        url@ == url_of(tls, domain@, text_of(*port)),
{
    proof {
        reveal_strlit("https");
        reveal_strlit("http");
        reveal_strlit("://");
        reveal_strlit(":");
    }
    let scheme = if tls {
        "https"
    } else {
        "http"
    };
    let mut url = String::from_str(scheme).concat("://").concat(domain);
    match port {
        Some(p) => {
            url.append(":");
            url.append(p.as_str());
        },
        None => {},
    }
    assert(url@ =~= url_of(tls, domain@, text_of(*port)));
    url
}

} // verus!

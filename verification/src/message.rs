//! The parsed form of one IRC protocol message.
use vstd::prelude::*;
use crate::line::opt_str_view;

verus! {

/// Numeric response codes the core handles specially; every other code is
/// carried through as `Other`.
#[derive(Debug, Clone, Copy, PartialEq, Eq)]
pub enum Response {
    RplWelcome,
    RplMyInfo,
    RplNamReply,
    RplEndOfNames,
    RplMotd,
    RplMotdStart,
    RplEndOfMotd,
    Other(u16),
}

impl Response {
    /// The numeric code this response stands for.
    pub open spec fn code_spec(self) -> u16 {
        match self {
            Response::RplWelcome => 1,
            Response::RplMyInfo => 4,
            Response::RplNamReply => 353,
            Response::RplEndOfNames => 366,
            Response::RplMotd => 372,
            Response::RplMotdStart => 375,
            Response::RplEndOfMotd => 376,
            Response::Other(c) => c,
        }
    }

    /// The response for a numeric code; codes without a name map to `Other`.
    pub open spec fn from_u16_spec(code: u16) -> Response {
        if code == 1 {
            Response::RplWelcome
        } else if code == 4 {
            Response::RplMyInfo
        } else if code == 353 {
            Response::RplNamReply
        } else if code == 366 {
            Response::RplEndOfNames
        } else if code == 372 {
            Response::RplMotd
        } else if code == 375 {
            Response::RplMotdStart
        } else if code == 376 {
            Response::RplEndOfMotd
        } else {
            Response::Other(code)
        }
    }

    pub fn from_u16(code: u16) -> (r: Response)
        ensures
            r == Response::from_u16_spec(code),
    {
        if code == 1 {
            Response::RplWelcome
        } else if code == 4 {
            Response::RplMyInfo
        } else if code == 353 {
            Response::RplNamReply
        } else if code == 366 {
            Response::RplEndOfNames
        } else if code == 372 {
            Response::RplMotd
        } else if code == 375 {
            Response::RplMotdStart
        } else if code == 376 {
            Response::RplEndOfMotd
        } else {
            Response::Other(code)
        }
    }

    pub fn to_u16(self) -> (r: u16)
        ensures
            r == self.code_spec(),
    {
        match self {
            Response::RplWelcome => 1,
            Response::RplMyInfo => 4,
            Response::RplNamReply => 353,
            Response::RplEndOfNames => 366,
            Response::RplMotd => 372,
            Response::RplMotdStart => 375,
            Response::RplEndOfMotd => 376,
            Response::Other(c) => c,
        }
    }
}

/// IRC commands the core routes or sends; commands it has no use for are
/// carried as `Other` with their literal name.
#[derive(Debug, PartialEq, Eq)]
pub enum Command {
    Pass,
    Nick,
    User,
    Quit,
    Join,
    Part,
    Topic,
    Kick,
    Privmsg,
    Notice,
    Ping,
    Pong,
    /// A numeric response code.
    Response(Response),
    Other(String),
}

/// Character-level contents of a `Command`.
pub enum CommandV {
    Pass,
    Nick,
    User,
    Quit,
    Join,
    Part,
    Topic,
    Kick,
    Privmsg,
    Notice,
    Ping,
    Pong,
    Response(Response),
    Other(Seq<char>),
}

impl View for Command {
    type V = CommandV;

    open spec fn view(&self) -> CommandV {
        match self {
            Command::Pass => CommandV::Pass,
            Command::Nick => CommandV::Nick,
            Command::User => CommandV::User,
            Command::Quit => CommandV::Quit,
            Command::Join => CommandV::Join,
            Command::Part => CommandV::Part,
            Command::Topic => CommandV::Topic,
            Command::Kick => CommandV::Kick,
            Command::Privmsg => CommandV::Privmsg,
            Command::Notice => CommandV::Notice,
            Command::Ping => CommandV::Ping,
            Command::Pong => CommandV::Pong,
            Command::Response(r) => CommandV::Response(*r),
            Command::Other(s) => CommandV::Other(s@),
        }
    }
}

/// One parsed IRC message: an optional prefix naming the sender, a command,
/// its arguments, and an optional trailing body.
#[derive(Debug, PartialEq, Eq)]
pub struct Message {
    pub prefix: Option<String>,
    pub command: Command,
    pub args: Vec<String>,
    pub body: Option<String>,
}

/// Character-level contents of a `Message`.
pub struct MessageV {
    pub prefix: Option<Seq<char>>,
    pub command: CommandV,
    pub args: Seq<Seq<char>>,
    pub body: Option<Seq<char>>,
}

impl View for Message {
    type V = MessageV;

    open spec fn view(&self) -> MessageV {
        MessageV {
            prefix: opt_str_view(&self.prefix),
            command: self.command@,
            args: self.args.deep_view(),
            body: opt_str_view(&self.body),
        }
    }
}

impl Message {
    pub fn new(
        prefix: Option<String>,
        cmd: Command,
        args: Vec<String>,
        body: Option<String>,
    ) -> (r: Message)
        ensures
            r@.prefix == opt_str_view(&prefix),
            r@.command == cmd@,
            r@.args == args.deep_view(),
            r@.body == opt_str_view(&body),
    {
        Message { prefix, command: cmd, args, body }
    }
}

impl Clone for Command {
    fn clone(&self) -> (res: Self)
        ensures
            res == *self,
    {
        match self {
            Command::Pass => Command::Pass,
            Command::Nick => Command::Nick,
            Command::User => Command::User,
            Command::Quit => Command::Quit,
            Command::Join => Command::Join,
            Command::Part => Command::Part,
            Command::Topic => Command::Topic,
            Command::Kick => Command::Kick,
            Command::Privmsg => Command::Privmsg,
            Command::Notice => Command::Notice,
            Command::Ping => Command::Ping,
            Command::Pong => Command::Pong,
            Command::Response(r) => Command::Response(*r),
            Command::Other(s) => Command::Other(s.clone()),
        }
    }
}

pub fn clone_args_pub(v: &Vec<String>) -> (r: Vec<String>)
    ensures
        r.deep_view() == v.deep_view(),
{
    let mut out: Vec<String> = Vec::new();
    let mut i: usize = 0;
    while i < v.len()
        invariant
            i <= v.len(),
            out.deep_view() == v.deep_view().take(i as int),
        decreases v.len() - i,
    {
        let ghost prev = out.deep_view();
        out.push(v[i].clone());
        proof {
            assert(out.deep_view() =~= prev.push(v.deep_view()[i as int]));
            assert(out.deep_view() =~= v.deep_view().take(i + 1));
        }
        i = i + 1;
    }
    proof {
        assert(v.deep_view().take(v.len() as int) =~= v.deep_view());
    }
    out
}

impl Clone for Message {
    /// A clone carries the same characters everywhere.
    fn clone(&self) -> (res: Self)
        ensures
            res@ == self@,
    {
        Message {
            prefix: crate::line::clone_opt_string(&self.prefix),
            command: self.command.clone(),
            args: clone_args_pub(&self.args),
            body: crate::line::clone_opt_string(&self.body),
        }
    }
}

impl DeepView for Message {
    type V = MessageV;

    open spec fn deep_view(&self) -> MessageV {
        self.view()
    }
}

/// An error that might occur when parsing an IRC message line.
#[derive(Debug, Clone, PartialEq, Eq)]
pub enum ParseError {
    UnexpectedEnd,
    EmptyCommand,
}

} // verus!

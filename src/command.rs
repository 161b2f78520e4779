use vstd::prelude::*;

use crate::types::{ClientKillFilter, ClientKillType, ClientPauseKind, ClientReplyFlag, ClientUnblockFlag};
use crate::value::{
    expect_ok, frame_to_single_result, is_ok_status, result_matches, single_result, values_view,
    Error, Frame, Value, ValueView,
};

verus! {

/// The operations that this layer issues.
#[derive(Debug, Clone, Copy, PartialEq, Eq, Structural)]
pub enum CommandKind {
    ClientId,
    ClientInfo,
    ClientKill,
    ClientList,
    ClientPause,
    ClientUnpause,
    ClientGetName,
    ClientSetname,
    ClientReply,
    ClientUnblock,
}

/// How the reply to a command is decoded.
#[derive(Debug, Clone, Copy, PartialEq, Eq, Structural)]
pub enum ResponseShape {
    /// One decoded value.
    SingleValue,
    /// The status acknowledgment `OK`.
    Status,
    /// One decoded value, which may be null.
    OptionalValue,
}

impl CommandKind {
    pub open spec fn spec_shape(self) -> ResponseShape {
        match self {
            CommandKind::ClientPause | CommandKind::ClientUnpause | CommandKind::ClientSetname
            | CommandKind::ClientReply => ResponseShape::Status,
            CommandKind::ClientGetName => ResponseShape::OptionalValue,
            _ => ResponseShape::SingleValue,
        }
    }

    /// The reply shape that this kind of command expects.
    pub fn response_shape(&self) -> (r: ResponseShape)
        ensures
            r == self.spec_shape(),
    {
        match self {
            CommandKind::ClientPause | CommandKind::ClientUnpause | CommandKind::ClientSetname
            | CommandKind::ClientReply => ResponseShape::Status,
            CommandKind::ClientGetName => ResponseShape::OptionalValue,
            _ => ResponseShape::SingleValue,
        }
    }

    /// Commands that may wait in the primary queue when no secondary
    /// transport is at hand.
    pub open spec fn spec_safe_to_queue(self) -> bool {
        match self {
            CommandKind::ClientKill | CommandKind::ClientUnblock => false,
            _ => true,
        }
    }

    pub fn safe_to_queue(&self) -> (r: bool)
        ensures
            r == self.spec_safe_to_queue(),
    {
        match self {
            CommandKind::ClientKill | CommandKind::ClientUnblock => false,
            _ => true,
        }
    }
}

/// One operation: its kind, its arguments in order and the reply it expects.
#[derive(Debug)]
pub struct Command {
    pub kind: CommandKind,
    pub args: Vec<Value>,
    pub expects: ResponseShape,
}

impl Command {
    /// Whether the command is well formed: it expects what its kind expects.
    pub open spec fn wf(&self) -> bool {
        self.expects == self.kind.spec_shape()
    }

    pub open spec fn args_view(&self) -> Seq<ValueView> {
        values_view(self.args@)
    }

    pub fn new(kind: CommandKind, args: Vec<Value>) -> (r: Command)
        ensures
            r.wf(),
            r.kind == kind,
            r.args@ == args@,
    {
        let expects = kind.response_shape();
        Command { kind, args, expects }
    }
}

proof fn lemma_push_view(vs: Seq<Value>, v: Value)
    ensures
        values_view(vs.push(v)) == values_view(vs).push(v@),
{
    assert(values_view(vs.push(v)) =~= values_view(vs).push(v@));
}

/// The arguments of `CLIENT KILL`: each filter's field and value, in order.
pub open spec fn kill_args(fs: Seq<ClientKillFilter>) -> Seq<ValueView>
    decreases fs.len(),
{
    if fs.len() == 0 {
        Seq::empty()
    } else {
        let p = fs.last().spec_pair();
        kill_args(fs.drop_last()).push(ValueView::Str(p.0)).push(ValueView::Str(p.1))
    }
}

/// The models of a list of strings.
pub open spec fn strings_view(ss: Seq<String>) -> Seq<Seq<char>> {
    ss.map_values(|s: String| s@)
}

/// The arguments of `CLIENT LIST`: the type filter, if any, then the ids,
/// if any are given.
pub open spec fn list_args(kind: Option<ClientKillType>, ids: Option<Seq<Seq<char>>>) -> Seq<ValueView> {
    let type_part = match kind {
        Some(k) => seq![ValueView::Str("TYPE"@), ValueView::Str(k.spec_str())],
        None => Seq::empty(),
    };
    let id_part = match ids {
        Some(ids) => if ids.len() > 0 {
            seq![ValueView::Str("ID"@)] + ids.map_values(|id: Seq<char>| ValueView::Str(id))
        } else {
            Seq::empty()
        },
        None => Seq::empty(),
    };
    type_part + id_part
}

/// The arguments of `CLIENT PAUSE`.
pub open spec fn pause_args(timeout: i64, mode: Option<ClientPauseKind>) -> Seq<ValueView> {
    match mode {
        Some(m) => seq![ValueView::Integer(timeout as int), ValueView::Str(m.spec_str())],
        None => seq![ValueView::Integer(timeout as int)],
    }
}

/// The arguments of `CLIENT UNBLOCK`.
pub open spec fn unblock_args(id: ValueView, flag: Option<ClientUnblockFlag>) -> Seq<ValueView> {
    match flag {
        Some(f) => seq![id, ValueView::Str(f.spec_str())],
        None => seq![id],
    }
}

/// Builds `CLIENT KILL` from zero or more filters.
pub fn client_kill(filters: Vec<ClientKillFilter>) -> (r: Command)
    requires
        2 * filters@.len() <= usize::MAX,
    ensures
        r.wf(),
        r.kind == CommandKind::ClientKill,
        r.args_view() == kill_args(filters@),
{
    let mut args: Vec<Value> = Vec::new();
    let mut i: usize = 0;
    while i < filters.len()
        invariant
            i <= filters@.len(),
            values_view(args@) == kill_args(filters@.subrange(0, i as int)),
        decreases filters@.len() - i,
    {
        let (field, value) = filters[i].to_str();
        proof {
            let pre = filters@.subrange(0, i as int);
            let next = filters@.subrange(0, i as int + 1);
            assert(next.drop_last() =~= pre);
            assert(next.last() == filters@[i as int]);
            lemma_push_view(args@, Value::String(field));
            lemma_push_view(args@.push(Value::String(field)), Value::String(value));
        }
        args.push(Value::String(field));
        args.push(Value::String(value));
        i = i + 1;
    }
    assert(filters@.subrange(0, filters@.len() as int) =~= filters@);
    Command::new(CommandKind::ClientKill, args)
}

/// Builds `CLIENT LIST` with an optional type filter and an optional id list.
/// An empty id list adds no arguments.
pub fn client_list(kind: Option<ClientKillType>, ids: Option<Vec<String>>) -> (r: Command)
    ensures
        r.wf(),
        r.kind == CommandKind::ClientList,
        r.args_view() == list_args(
            kind,
            match ids {
                Some(v) => Some(strings_view(v@)),
                None => None,
            },
        ),
{
    let mut args: Vec<Value> = Vec::new();
    if let Some(k) = kind {
        args.push(Value::String("TYPE".to_owned()));
        args.push(Value::String(k.to_str()));
    }
    let ghost type_part = values_view(args@);
    assert(type_part =~= list_args(kind, None));
    if let Some(ids) = ids {
        if ids.len() > 0 {
            args.push(Value::String("ID".to_owned()));
            let ghost start = args@;
            assert(values_view(start) =~= type_part.push(ValueView::Str("ID"@)));
            let mut i: usize = 0;
            while i < ids.len()
                invariant
                    i <= ids@.len(),
                    values_view(args@) == values_view(start) + ids@.subrange(0, i as int).map_values(
                        |s: String| ValueView::Str(s@),
                    ),
                decreases ids@.len() - i,
            {
                let id = ids[i].clone();
                proof {
                    lemma_push_view(args@, Value::String(id));
                    assert(ids@.subrange(0, i as int + 1).map_values(|s: String| ValueView::Str(s@))
                        =~= ids@.subrange(0, i as int).map_values(|s: String| ValueView::Str(s@)).push(
                        ValueView::Str(id@),
                    ));
                }
                args.push(Value::String(id));
                i = i + 1;
            }
            let ghost idv = strings_view(ids@);
            assert(ids@.subrange(0, ids@.len() as int) =~= ids@);
            assert(ids@.map_values(|s: String| ValueView::Str(s@)) =~= idv.map_values(
                |id: Seq<char>| ValueView::Str(id),
            ));
            assert(values_view(args@) =~= type_part + (seq![ValueView::Str("ID"@)]
                + idv.map_values(|id: Seq<char>| ValueView::Str(id))));
        }
    }
    Command::new(CommandKind::ClientList, args)
}

/// Builds `CLIENT PAUSE` for `timeout` milliseconds, for all commands or
/// for the given mode.
pub fn client_pause(timeout: i64, mode: Option<ClientPauseKind>) -> (r: Command)
    ensures
        r.wf(),
        r.kind == CommandKind::ClientPause,
        r.args_view() == pause_args(timeout, mode),
{
    let mut args: Vec<Value> = Vec::new();
    args.push(Value::Integer(timeout));
    if let Some(m) = mode {
        args.push(Value::String(m.to_str()));
    }
    assert(values_view(args@) =~= pause_args(timeout, mode));
    Command::new(CommandKind::ClientPause, args)
}

/// Builds `CLIENT SETNAME`.
pub fn client_setname(name: String) -> (r: Command)
    ensures
        r.wf(),
        r.kind == CommandKind::ClientSetname,
        r.args_view() == seq![ValueView::Str(name@)],
{
    let ghost n = name@;
    let args = vec![Value::String(name)];
    assert(values_view(args@) =~= seq![ValueView::Str(n)]);
    Command::new(CommandKind::ClientSetname, args)
}

/// Builds `CLIENT REPLY`.
pub fn client_reply(flag: ClientReplyFlag) -> (r: Command)
    ensures
        r.wf(),
        r.kind == CommandKind::ClientReply,
        r.args_view() == seq![ValueView::Str(flag.spec_str())],
{
    let args = vec![Value::String(flag.to_str())];
    assert(values_view(args@) =~= seq![ValueView::Str(flag.spec_str())]);
    Command::new(CommandKind::ClientReply, args)
}

/// Builds `CLIENT UNBLOCK` for the connection `id`, with an optional mode.
pub fn client_unblock(id: Value, flag: Option<ClientUnblockFlag>) -> (r: Command)
    ensures
        r.wf(),
        r.kind == CommandKind::ClientUnblock,
        r.args_view() == unblock_args(id@, flag),
{
    let ghost idv = id@;
    let mut args: Vec<Value> = Vec::new();
    args.push(id);
    if let Some(f) = flag {
        args.push(Value::String(f.to_str()));
    }
    assert(values_view(args@) =~= unblock_args(idv, flag));
    Command::new(CommandKind::ClientUnblock, args)
}

/// Builds a command of `kind` without arguments (`CLIENT ID`, `CLIENT INFO`,
/// `CLIENT GETNAME`, `CLIENT UNPAUSE`).
pub fn bare_command(kind: CommandKind) -> (r: Command)
    ensures
        r.wf(),
        r.kind == kind,
        r.args@.len() == 0,
{
    Command::new(kind, Vec::new())
}

/// What a reply frame decodes to for a command expecting `shape`.
pub open spec fn reply_result(shape: ResponseShape, f: Frame) -> Result<ValueView, crate::value::ErrorKind> {
    match shape {
        ResponseShape::Status => match single_result(f) {
            Ok(v) => if is_ok_status(v) {
                Ok(v)
            } else {
                Err(crate::value::ErrorKind::Protocol)
            },
            Err(k) => Err(k),
        },
        _ => single_result(f),
    }
}

/// Decodes a reply frame as `shape` asks: a single value, or a status that
/// must be `OK`.
pub fn decode_reply(shape: ResponseShape, frame: Frame) -> (r: Result<Value, Error>)
    ensures
        result_matches(r, reply_result(shape, frame)),
{
    let single = frame_to_single_result(frame);
    match shape {
        ResponseShape::Status => match single {
            Ok(v) => match expect_ok(&v) {
                Ok(()) => Ok(v),
                Err(e) => Err(e),
            },
            Err(e) => Err(e),
        },
        _ => single,
    }
}

} // verus!

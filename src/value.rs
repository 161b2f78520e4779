use vstd::prelude::*;

verus! {

/// A decoded value of the store's protocol.
#[derive(Debug, Clone)]
pub enum Value {
    Null,
    Integer(i64),
    String(String),
}

/// The mathematical model of a `Value`.
pub ghost enum ValueView {
    Null,
    Integer(int),
    Str(Seq<char>),
}

impl View for Value {
    type V = ValueView;

    open spec fn view(&self) -> ValueView {
        match self {
            Value::Null => ValueView::Null,
            Value::Integer(i) => ValueView::Integer(*i as int),
            Value::String(s) => ValueView::Str(s@),
        }
    }
}

/// The model of a sequence of values.
pub open spec fn values_view(vs: Seq<Value>) -> Seq<ValueView> {
    vs.map_values(|v: Value| v@)
}

/// The class of a failure, as callers see it.
#[derive(Debug, Clone, Copy, PartialEq, Eq, Structural)]
pub enum ErrorKind {
    /// The transport was lost or never established.
    Connectivity,
    /// A reply did not have the shape that the command expects.
    Protocol,
    /// The request was abandoned before it was answered.
    Cancellation,
    /// The server refused an administrative command.
    Administrative,
}

/// A failure with its class and a message.
#[derive(Debug, Clone)]
pub struct Error {
    pub kind: ErrorKind,
    pub details: String,
}

impl Error {
    pub fn new(kind: ErrorKind, details: &str) -> (r: Error)
        ensures
            r.kind == kind,
            r.details@ == details@,
    {
        Error { kind, details: details.to_owned() }
    }
}

/// One reply unit of the wire protocol, after framing.
#[derive(Debug, Clone)]
pub enum Frame {
    SimpleString(String),
    Error(String),
    Integer(i64),
    BulkString(String),
    Null,
    Array(Vec<Value>),
}

/// What a frame decodes to when a single value is expected: `Ok` with the
/// value's model, or `Err` with the class of the failure.
pub open spec fn single_result(f: Frame) -> Result<ValueView, ErrorKind> {
    match f {
        Frame::SimpleString(s) => Ok(ValueView::Str(s@)),
        Frame::BulkString(s) => Ok(ValueView::Str(s@)),
        Frame::Integer(i) => Ok(ValueView::Integer(i as int)),
        Frame::Null => Ok(ValueView::Null),
        Frame::Error(_) => Err(ErrorKind::Administrative),
        Frame::Array(vs) => if vs.len() == 1 {
            Ok(vs[0]@)
        } else {
            Err(ErrorKind::Protocol)
        },
    }
}

/// Whether an executable result agrees with a modelled one.
pub open spec fn result_matches<T: View>(r: Result<T, Error>, m: Result<T::V, ErrorKind>) -> bool {
    match (r, m) {
        (Ok(v), Ok(mv)) => v@ == mv,
        (Err(e), Err(k)) => e.kind == k,
        _ => false,
    }
}

/// Whether a value is the status acknowledgment `OK`.
pub open spec fn is_ok_status(v: ValueView) -> bool {
    v == ValueView::Str("OK"@)
}

/// Decodes a frame into a single value. An error frame becomes an
/// administrative error carrying the server's message; an array becomes its
/// one element, and is a protocol error if it holds more or fewer.
pub fn frame_to_single_result(frame: Frame) -> (r: Result<Value, Error>)
    ensures
        result_matches(r, single_result(frame)),
        frame is Error ==> (r is Err && r->Err_0.details@ == frame->Error_0@),
{
    match frame {
        Frame::SimpleString(s) => Ok(Value::String(s)),
        Frame::BulkString(s) => Ok(Value::String(s)),
        Frame::Integer(i) => Ok(Value::Integer(i)),
        Frame::Null => Ok(Value::Null),
        Frame::Error(msg) => Err(Error { kind: ErrorKind::Administrative, details: msg }),
        Frame::Array(vs) => {
            let mut vs = vs;
            if vs.len() == 1 {
                let v = vs.pop().unwrap();
                Ok(v)
            } else {
                Err(Error::new(ErrorKind::Protocol, "expected a single value"))
            }
        },
    }
}

/// Accepts the status acknowledgment `OK` and refuses any other value as a
/// protocol error.
pub fn expect_ok(value: &Value) -> (r: Result<(), Error>)
    ensures
        r is Ok <==> is_ok_status(value@),
        r is Err ==> r->Err_0.kind == ErrorKind::Protocol,
{
    let ok = "OK".to_owned();
    match value {
        Value::String(s) => {
            if *s == ok {
                Ok(())
            } else {
                Err(Error::new(ErrorKind::Protocol, "expected OK"))
            }
        },
        _ => Err(Error::new(ErrorKind::Protocol, "expected OK")),
    }
}

} // verus!

//! The command port: EASYCOMM commands that set and query the two angles.
//!
//! Bytes are collected until the line has been quiet for a moment; the burst is then cut
//! at CR, LF and SPACE into commands of two letters and an optional angle.
use vstd::prelude::*;

use crate::angle::{
    one_decimal, one_decimal_is_nearest, tenths_of, whole_tenths_are_kept, AzAngle, ElAngle,
};
use crate::buffers::{
    line_bytes, received_bytes, AnswerLine, ReceiveBuffer, LINE_LEN, RCV_BUF_LEN,
};
use crate::context::AppContext;

verus! {

/// How long the line must be quiet to end a burst, in milliseconds.
pub const RX_TO_MS: u64 = 20;

/// How long a burst is waited for, in milliseconds: seven days.
pub const RX_TO_MAX_MS: u64 = 604_800_000;

/// The commands that the port understands.
#[derive(Clone, Copy, Debug, PartialEq, Eq, Structural)]
pub enum EasycomCommands {
    /// Version of the protocol.
    VE,
    /// Azimuth.
    AZ,
    /// Elevation.
    EL,
}

impl EasycomCommands {
    /// The command of two letters.
    pub open spec fn of_letters(first: u8, second: u8) -> Option<EasycomCommands> {
        if first == 'V' as u8 && second == 'E' as u8 {
            Some(EasycomCommands::VE)
        } else if first == 'A' as u8 && second == 'Z' as u8 {
            Some(EasycomCommands::AZ)
        } else if first == 'E' as u8 && second == 'L' as u8 {
            Some(EasycomCommands::EL)
        } else {
            None
        }
    }

    /// The command of two letters, if there is one.
    pub fn from_letters(first: u8, second: u8) -> (r: Option<EasycomCommands>)
        ensures
            r == EasycomCommands::of_letters(first, second),
    {
        if first == 'V' as u8 && second == 'E' as u8 {
            Some(EasycomCommands::VE)
        } else if first == 'A' as u8 && second == 'Z' as u8 {
            Some(EasycomCommands::AZ)
        } else if first == 'E' as u8 && second == 'L' as u8 {
            Some(EasycomCommands::EL)
        } else {
            None
        }
    }
}

/// How one read of the port ended.
#[derive(Clone, Copy, Debug, PartialEq, Eq, Structural)]
pub enum ReadEvent {
    /// The time ran out.
    Timeout,
    /// The port reported a fault.
    Failed,
    /// `count` bytes were read, the first of them `byte`.
    Read { count: usize, byte: u8 },
}

/// What to do after a read.
#[derive(Clone, Copy, Debug, PartialEq, Eq, Structural)]
pub enum ReadStep {
    /// Read on.
    ReadMore,
    /// The burst is complete.
    Complete,
}

/// A burst as the contracts see it.
#[verifier::ext_equal]
pub struct BurstView {
    /// The bytes so far.
    pub bytes: Seq<u8>,
    /// How long the next read may take, in milliseconds.
    pub timeout: u64,
}

/// A burst before its first byte.
pub open spec fn empty_burst() -> BurstView {
    BurstView { bytes: Seq::empty(), timeout: RX_TO_MAX_MS }
}

/// What one read does to a burst. The byte after the buffer has filled is lost.
pub open spec fn after_read(burst: BurstView, event: ReadEvent) -> (BurstView, ReadStep) {
    match event {
        ReadEvent::Timeout | ReadEvent::Failed => (burst, ReadStep::Complete),
        ReadEvent::Read { count, byte } => if count > 0 && burst.bytes.len() < RCV_BUF_LEN {
            (BurstView { bytes: burst.bytes.push(byte), timeout: RX_TO_MS }, ReadStep::ReadMore)
        } else {
            (BurstView { bytes: burst.bytes, timeout: RX_TO_MS }, ReadStep::Complete)
        },
    }
}

/// A letter as a capital; any other byte as it is.
pub open spec fn capital(b: u8) -> u8 {
    if 'a' as u8 <= b <= 'z' as u8 {
        (b - 32) as u8
    } else {
        b
    }
}

/// Bytes with all letters as capitals.
pub open spec fn capitals(s: Seq<u8>) -> Seq<u8> {
    s.map_values(|b: u8| capital(b))
}

/// CR, LF and SPACE separate commands.
pub open spec fn is_separator(b: u8) -> bool {
    b == 10 || b == 13 || b == 32
}

/// Bytes cut at each separator; there is one more piece than there are separators.
pub open spec fn pieces(s: Seq<u8>) -> Seq<Seq<u8>>
    decreases s.len(),
{
    if s.len() == 0 {
        seq![Seq::empty()]
    } else {
        let before = pieces(s.drop_last());
        if is_separator(s.last()) {
            before.push(Seq::empty())
        } else {
            before.drop_last().push(before.last().push(s.last()))
        }
    }
}

/// A request as the contracts see it.
#[verifier::ext_equal]
pub enum RequestView {
    /// Nothing that the port understands.
    Invalid,
    /// The version of the protocol.
    Version,
    /// The reported azimuth.
    QueryAz,
    /// The reported elevation.
    QueryEl,
    /// A new azimuth, in text.
    SetAz(Seq<u8>),
    /// A new elevation, in text.
    SetEl(Seq<u8>),
}

/// A request on the command port.
pub enum Request {
    /// Nothing that the port understands.
    Invalid,
    /// The version of the protocol.
    Version,
    /// The reported azimuth.
    QueryAz,
    /// The reported elevation.
    QueryEl,
    /// A new azimuth, in text.
    SetAz { text: Vec<u8> },
    /// A new elevation, in text.
    SetEl { text: Vec<u8> },
}

impl Request {
    /// The request with its text as a sequence.
    pub open spec fn view(&self) -> RequestView {
        match self {
            Request::Invalid => RequestView::Invalid,
            Request::Version => RequestView::Version,
            Request::QueryAz => RequestView::QueryAz,
            Request::QueryEl => RequestView::QueryEl,
            Request::SetAz { text } => RequestView::SetAz(text@),
            Request::SetEl { text } => RequestView::SetEl(text@),
        }
    }
}

/// The request that a piece of at least two bytes makes. An angle is written `X.X`,
/// `XX.X` or `XXX.X`, so that a command that sets one is five to seven bytes long.
pub open spec fn request_of(piece: Seq<u8>) -> RequestView {
    match EasycomCommands::of_letters(piece[0], piece[1]) {
        Some(EasycomCommands::VE) => RequestView::Version,
        Some(EasycomCommands::AZ) => if piece.len() == 2 {
            RequestView::QueryAz
        } else if 5 <= piece.len() <= 7 {
            RequestView::SetAz(piece.skip(2))
        } else {
            RequestView::Invalid
        },
        Some(EasycomCommands::EL) => if piece.len() == 2 {
            RequestView::QueryEl
        } else if 5 <= piece.len() <= 7 {
            RequestView::SetEl(piece.skip(2))
        } else {
            RequestView::Invalid
        },
        None => RequestView::Invalid,
    }
}

/// The requests that pieces make, in order; pieces of less than two bytes make none.
pub open spec fn requests_of(ps: Seq<Seq<u8>>) -> Seq<RequestView> {
    ps.filter(|p: Seq<u8>| p.len() >= 2).map_values(|p: Seq<u8>| request_of(p))
}

/// The requests that a burst makes: none if it is empty, one that is not understood if it
/// is a single byte.
pub open spec fn requests_in(burst: Seq<u8>) -> Seq<RequestView> {
    if burst.len() == 0 {
        Seq::empty()
    } else if burst.len() == 1 {
        seq![RequestView::Invalid]
    } else {
        requests_of(pieces(capitals(burst)))
    }
}

/// Requests as the contracts see them.
pub open spec fn views(requests: Seq<Request>) -> Seq<RequestView> {
    requests.map_values(|r: Request| r.view())
}

proof fn lemma_requests_of_push(ps: Seq<Seq<u8>>, p: Seq<u8>)
    ensures
        requests_of(ps.push(p)) == (if p.len() >= 2 {
            requests_of(ps).push(request_of(p))
        } else {
            requests_of(ps)
        }),
{
    reveal(Seq::filter);
    let all = ps.push(p);
    assert(all.drop_last() =~= ps);
    assert(requests_of(all) =~= (if p.len() >= 2 {
        requests_of(ps).push(request_of(p))
    } else {
        requests_of(ps)
    }));
}

proof fn lemma_pieces_nonempty(s: Seq<u8>)
    ensures
        pieces(s).len() >= 1,
    decreases s.len(),
{
    if s.len() > 0 {
        lemma_pieces_nonempty(s.drop_last());
    }
}

/// The request that a piece makes.
fn classify(piece: &[u8]) -> (r: Request)
    requires
        piece@.len() >= 2,
    ensures
        r@ == request_of(piece@),
{
    let count: usize = piece.len();
    match EasycomCommands::from_letters(piece[0], piece[1]) {
        Some(EasycomCommands::VE) => Request::Version,
        Some(EasycomCommands::AZ) => {
            if count == 2 {
                Request::QueryAz
            } else if 5 <= count && count <= 7 {
                let text = vstd::slice::slice_to_vec(
                    vstd::slice::slice_subrange(piece, 2, count),
                );
                assert(text@ =~= piece@.skip(2));
                Request::SetAz { text }
            } else {
                Request::Invalid
            }
        },
        Some(EasycomCommands::EL) => {
            if count == 2 {
                Request::QueryEl
            } else if 5 <= count && count <= 7 {
                let text = vstd::slice::slice_to_vec(
                    vstd::slice::slice_subrange(piece, 2, count),
                );
                assert(text@ =~= piece@.skip(2));
                Request::SetEl { text }
            } else {
                Request::Invalid
            }
        },
        None => Request::Invalid,
    }
}

/// Cuts a burst of capitals at its separators and reads the requests.
fn parse_commands(line: &[u8]) -> (r: Vec<Request>)
    ensures
        views(r@) == requests_of(pieces(line@)),
{
    let mut requests: Vec<Request> = Vec::new();
    let mut start: usize = 0;
    let mut i: usize = 0;
    let ghost s = line@;
    proof {
        assert(s.take(0) =~= Seq::<u8>::empty());
        reveal(Seq::filter);
        assert(views(requests@) =~= requests_of(Seq::<Seq<u8>>::empty()));
        assert(pieces(s.take(0)) =~= Seq::<Seq<u8>>::empty().push(s.subrange(0, 0)));
        assert(pieces(s.take(0)).drop_last() =~= Seq::<Seq<u8>>::empty());
    }
    while i < line.len()
        invariant
            s == line@,
            0 <= start <= i <= s.len(),
            pieces(s.take(i as int)).len() >= 1,
            pieces(s.take(i as int)).last() == s.subrange(start as int, i as int),
            views(requests@) == requests_of(pieces(s.take(i as int)).drop_last()),
        decreases s.len() - i,
    {
        let ghost before = pieces(s.take(i as int));
        let ghost done = before.drop_last();
        let ghost piece = s.subrange(start as int, i as int);
        let b: u8 = line[i];
        proof {
            assert(s.take(i + 1).drop_last() =~= s.take(i as int));
            assert(s.take(i + 1).last() == b);
            assert(before =~= done.push(piece));
            lemma_requests_of_push(done, piece);
        }
        if b == 10 || b == 13 || b == 32 {
            if i - start >= 2 {
                let ghost so_far = requests@;
                let request = classify(vstd::slice::slice_subrange(line, start, i));
                requests.push(request);
                proof {
                    assert(views(requests@) =~= views(so_far).push(request@));
                }
            }
            start = i + 1;
            proof {
                assert(pieces(s.take(i + 1)).drop_last() =~= before);
                assert(s.subrange(i + 1, i + 1) =~= Seq::<u8>::empty());
            }
        } else {
            proof {
                assert(pieces(s.take(i + 1)).drop_last() =~= done);
                assert(piece.push(b) =~= s.subrange(start as int, i + 1));
            }
        }
        i = i + 1;
    }
    proof {
        let before = pieces(s.take(i as int));
        let piece = s.subrange(start as int, i as int);
        assert(s.take(i as int) =~= s);
        assert(before =~= before.drop_last().push(piece));
        lemma_requests_of_push(before.drop_last(), piece);
    }
    if i - start >= 2 {
        let ghost so_far = requests@;
        let request = classify(vstd::slice::slice_subrange(line, start, i));
        requests.push(request);
        proof {
            assert(views(requests@) =~= views(so_far).push(request@));
        }
    }
    requests
}

/// Collects one burst on the command port.
pub struct EasycomReceiver {
    rcv_buf: ReceiveBuffer,
    rx_timeout: u64,
}

impl EasycomReceiver {
    /// The burst as the contracts see it.
    pub closed spec fn view(&self) -> BurstView {
        BurstView { bytes: received_bytes(self.rcv_buf), timeout: self.rx_timeout }
    }

    /// A receiver before its first burst.
    pub fn new() -> (r: EasycomReceiver)
        ensures
            r@ == empty_burst(),
    {
        EasycomReceiver { rcv_buf: ReceiveBuffer::new(), rx_timeout: RX_TO_MAX_MS }
    }

    /// Starts the next burst.
    pub fn begin(&mut self)
        ensures
            final(self)@ == empty_burst(),
    {
        self.rcv_buf.clear();
        self.rx_timeout = RX_TO_MAX_MS;
    }

    /// How long the next read may take, in milliseconds.
    pub fn timeout(&self) -> (r: u64)
        ensures
            r == self@.timeout,
    {
        self.rx_timeout
    }

    /// Takes the outcome of one read of the port.
    pub fn on_read(&mut self, event: ReadEvent) -> (step: ReadStep)
        ensures
            (final(self)@, step) == after_read(old(self)@, event),
    {
        match event {
            ReadEvent::Timeout => ReadStep::Complete,
            ReadEvent::Failed => ReadStep::Complete,
            ReadEvent::Read { count, byte } => {
                self.rx_timeout = RX_TO_MS;
                if count > 0 && self.rcv_buf.as_slice().len() < RCV_BUF_LEN {
                    self.rcv_buf.push(byte);
                    ReadStep::ReadMore
                } else {
                    ReadStep::Complete
                }
            },
        }
    }

    /// Turns the letters of the burst into capitals.
    fn to_capitals(&mut self)
        ensures
            final(self)@ == (BurstView { bytes: capitals(old(self)@.bytes), ..old(self)@ }),
    {
        let ghost raw = received_bytes(self.rcv_buf);
        let n: usize = self.rcv_buf.as_slice().len();
        let mut i: usize = 0;
        while i < n
            invariant
                n == raw.len(),
                0 <= i <= n,
                self.rx_timeout == old(self)@.timeout,
                received_bytes(self.rcv_buf).len() == n,
                forall|k: int|
                    0 <= k < i ==> received_bytes(self.rcv_buf)[k] == capital(#[trigger] raw[k]),
                forall|k: int| i <= k < n ==> received_bytes(self.rcv_buf)[k] == raw[k],
            decreases n - i,
        {
            let c: u8 = self.rcv_buf.as_slice()[i];
            if 0x61 <= c && c <= 0x7a {
                assert(0x61u8 <= c && c <= 0x7au8 ==> c & !0x20u8 == c - 32) by (bit_vector);
                self.rcv_buf.set(i, c & !0x20);
            }
            i = i + 1;
        }
        assert(received_bytes(self.rcv_buf) =~= capitals(raw));
    }

    /// The requests that the burst makes, in order. The letters of the burst become
    /// capitals.
    pub fn requests(&mut self) -> (r: Vec<Request>)
        ensures
            views(r@) == requests_in(old(self)@.bytes),
            final(self)@ == (BurstView { bytes: capitals(old(self)@.bytes), ..old(self)@ }),
    {
        self.to_capitals();
        let line = self.rcv_buf.as_slice();
        if line.len() == 0 {
            let r: Vec<Request> = Vec::new();
            assert(views(r@) =~= Seq::<RequestView>::empty());
            return r;
        }
        if line.len() == 1 {
            let mut r: Vec<Request> = Vec::new();
            r.push(Request::Invalid);
            assert(views(r@) =~= seq![RequestView::Invalid]);
            return r;
        }
        parse_commands(line)
    }
}

/// A number in decimal, without leading zeros, in ASCII.
pub open spec fn decimal(n: nat) -> Seq<u8>
    decreases n,
{
    if n < 10 {
        seq![(48 + n) as u8]
    } else {
        decimal(n / 10).push((48 + n % 10) as u8)
    }
}

/// The answer to a query for an angle: `+`, the degrees with one decimal, and a line feed.
pub open spec fn angle_answer(centi: u16) -> Seq<u8> {
    let tenths = tenths_of(centi);
    seq!['+' as u8] + decimal(tenths / 10) + seq!['.' as u8, (48 + tenths % 10) as u8, 10u8]
}

/// An answer as the contracts see it.
#[verifier::ext_equal]
pub enum ReplyView {
    /// Nothing is written.
    Silent,
    /// The answer to what was not understood.
    Error,
    /// The line that states the protocol version.
    Version,
    /// These bytes.
    Line(Seq<u8>),
}

/// An answer on the command port.
pub enum Reply {
    /// Nothing is written.
    Silent,
    /// The answer to what was not understood.
    Error,
    /// The line that states the protocol version.
    Version,
    /// This line.
    Line { line: AnswerLine },
}

impl Reply {
    /// The answer with its line as a sequence.
    pub open spec fn view(&self) -> ReplyView {
        match self {
            Reply::Silent => ReplyView::Silent,
            Reply::Error => ReplyView::Error,
            Reply::Version => ReplyView::Version,
            Reply::Line { line } => ReplyView::Line(line_bytes(*line)),
        }
    }
}

/// The answer to what was not understood: a question mark and a line feed.
pub fn error_answer() -> (r: [u8; 2])
    ensures
        r@ == seq!['?' as u8, 10u8],
{
    ['?' as u8, 10]
}

pub(crate) proof fn lemma_decimal(n: nat)
    ensures
        forall|i: int| 0 <= i < decimal(n).len() ==> 48 <= #[trigger] decimal(n)[i] <= 57,
        n < 10 ==> decimal(n).len() <= 1,
        n < 100 ==> decimal(n).len() <= 2,
        n < 1000 ==> decimal(n).len() <= 3,
        n < 10000 ==> decimal(n).len() <= 4,
        n < 100000 ==> decimal(n).len() <= 5,
        n < 1000000 ==> decimal(n).len() <= 6,
        n < 10000000 ==> decimal(n).len() <= 7,
        n < 100000000 ==> decimal(n).len() <= 8,
        n < 1000000000 ==> decimal(n).len() <= 9,
        n < 10000000000 ==> decimal(n).len() <= 10,
    decreases n,
{
    if n >= 10 {
        lemma_decimal(n / 10);
        assert forall|i: int| 0 <= i < decimal(n).len() implies 48 <= #[trigger] decimal(n)[i]
            <= 57 by {
            if i < decimal(n).len() - 1 {
                assert(decimal(n)[i] == decimal(n / 10)[i]);
            }
        }
    }
}

/// Writes a number at the end of a line that has room for it.
fn push_decimal(line: &mut AnswerLine, n: u16)
    requires
        line_bytes(*old(line)).len() + decimal(n as nat).len() <= LINE_LEN,
    ensures
        line_bytes(*final(line)) == line_bytes(*old(line)) + decimal(n as nat),
    decreases n,
{
    if n >= 10 {
        push_decimal(line, n / 10);
    }
    line.push(48 + (n % 10) as u8);
    assert(line_bytes(*line) =~= line_bytes(*old(line)) + decimal(n as nat));
}

/// The answer to a query for an angle of `centi` hundredths of a degree.
pub fn angle_line(centi: u16) -> (line: AnswerLine)
    ensures
        line_bytes(line) == angle_answer(centi),
{
    let tenths: u16 = one_decimal(centi);
    let mut line = AnswerLine::new();
    line.push('+' as u8);
    proof {
        lemma_decimal(tenths as nat / 10);
    }
    push_decimal(&mut line, tenths / 10);
    line.push('.' as u8);
    line.push(48 + (tenths % 10) as u8);
    line.push(10);
    assert(line_bytes(line) =~= angle_answer(centi));
    line
}

/// The shared state and the answer after a request, given what the text of a new azimuth
/// or of a new elevation was read as.
pub open spec fn answered(
    ctx: AppContext,
    request: RequestView,
    az: Option<AzAngle>,
    el: Option<ElAngle>,
) -> (AppContext, ReplyView) {
    match request {
        RequestView::Invalid => (ctx, ReplyView::Error),
        RequestView::Version => (ctx, ReplyView::Version),
        RequestView::QueryAz => (ctx, ReplyView::Line(angle_answer(ctx.current_az.centi))),
        RequestView::QueryEl => (ctx, ReplyView::Line(angle_answer(ctx.current_el.centi))),
        RequestView::SetAz(_) => match az {
            Some(az) => (AppContext { target_az: az, ..ctx }, ReplyView::Silent),
            None => (ctx, ReplyView::Error),
        },
        RequestView::SetEl(_) => match el {
            Some(el) => (AppContext { target_el: el, ..ctx }, ReplyView::Silent),
            None => (ctx, ReplyView::Error),
        },
    }
}

/// Carries out a request. `az` and `el` are what the text of a request for a new azimuth
/// or elevation was read as, if it is an angle that the rotator can take; for any other
/// request they do not matter.
pub fn answer(
    ctx: &mut AppContext,
    request: &Request,
    az: Option<AzAngle>,
    el: Option<ElAngle>,
) -> (reply: Reply)
    ensures
        (*final(ctx), reply@) == answered(*old(ctx), request@, az, el),
        old(ctx).wf() && (el matches Some(angle) ==> angle.wf()) ==> final(ctx).wf(),
{
    match request {
        Request::Invalid => Reply::Error,
        Request::Version => Reply::Version,
        Request::QueryAz => Reply::Line { line: angle_line(ctx.current_az.centi) },
        Request::QueryEl => Reply::Line { line: angle_line(ctx.current_el.centi) },
        Request::SetAz { .. } => match az {
            Some(angle) => {
                ctx.target_az = angle;
                Reply::Silent
            },
            None => Reply::Error,
        },
        Request::SetEl { .. } => match el {
            Some(angle) => {
                ctx.target_el = angle;
                Reply::Silent
            },
            None => Reply::Error,
        },
    }
}

/// Whole degrees, as the rotator reports them, are answered with a zero behind the point.
pub proof fn whole_degrees_are_answered_with_a_zero(degrees: u16)
    requires
        100 * degrees <= u16::MAX,
    ensures
        angle_answer((100 * degrees) as u16) == seq!['+' as u8] + decimal(degrees as nat) + seq![
            '.' as u8,
            '0' as u8,
            10u8,
        ],
{
    whole_tenths_are_kept((10 * degrees) as u16);
}

/// Commands may be written in either case: capitals make the same requests.
pub proof fn case_does_not_matter(burst: Seq<u8>)
    ensures
        requests_in(capitals(burst)) == requests_in(burst),
{
    assert(capitals(capitals(burst)) =~= capitals(burst));
}

proof fn lemma_pieces_of_joined(a: Seq<u8>, separator: u8, b: Seq<u8>)
    requires
        is_separator(separator),
    ensures
        pieces(a.push(separator) + b) == pieces(a) + pieces(b),
    decreases b.len(),
{
    let whole = a.push(separator) + b;
    if b.len() == 0 {
        assert(whole =~= a.push(separator));
        assert(whole.drop_last() =~= a);
        assert(pieces(whole) =~= pieces(a) + pieces(b));
    } else {
        let shorter = b.drop_last();
        lemma_pieces_of_joined(a, separator, shorter);
        lemma_pieces_nonempty(shorter);
        assert(whole.drop_last() =~= a.push(separator) + shorter);
        assert(whole.last() == b.last());
        let before = pieces(a) + pieces(shorter);
        assert(before.last() == pieces(shorter).last());
        assert(before.drop_last() =~= pieces(a) + pieces(shorter).drop_last());
        assert(pieces(whole) =~= pieces(a) + pieces(b));
    }
}

proof fn lemma_requests_of_joined(ps: Seq<Seq<u8>>, qs: Seq<Seq<u8>>)
    ensures
        requests_of(ps + qs) == requests_of(ps) + requests_of(qs),
    decreases qs.len(),
{
    if qs.len() == 0 {
        assert(ps + qs =~= ps);
        reveal(Seq::filter);
        assert(requests_of(qs) =~= Seq::<RequestView>::empty());
        assert(requests_of(ps) + requests_of(qs) =~= requests_of(ps));
    } else {
        let shorter = qs.drop_last();
        lemma_requests_of_joined(ps, shorter);
        lemma_requests_of_push(ps + shorter, qs.last());
        lemma_requests_of_push(shorter, qs.last());
        assert(ps + qs =~= (ps + shorter).push(qs.last()));
        assert(qs =~= shorter.push(qs.last()));
        assert(requests_of(ps + qs) =~= requests_of(ps) + requests_of(qs));
    }
}

/// Commands that come in one burst, apart by a separator, are taken in order, each as if
/// it had come alone.
pub proof fn separated_commands_are_taken_in_order(a: Seq<u8>, separator: u8, b: Seq<u8>)
    requires
        is_separator(separator),
        a.len() != 1,
        b.len() != 1,
        a.len() + b.len() > 0,
    ensures
        requests_in(a.push(separator) + b) == requests_in(a) + requests_in(b),
{
    let ca = capitals(a);
    let cb = capitals(b);
    let whole = a.push(separator) + b;
    assert(capitals(whole) =~= ca.push(separator) + cb);
    lemma_pieces_of_joined(ca, separator, cb);
    lemma_requests_of_joined(pieces(ca), pieces(cb));
    lemma_empty_burst_makes_no_request(a);
    lemma_empty_burst_makes_no_request(b);
}

proof fn lemma_empty_burst_makes_no_request(burst: Seq<u8>)
    requires
        burst.len() != 1,
    ensures
        requests_in(burst) == requests_of(pieces(capitals(burst))),
{
    if burst.len() == 0 {
        let none = Seq::<Seq<u8>>::empty();
        assert(pieces(capitals(burst)) =~= none.push(Seq::empty()));
        lemma_requests_of_push(none, Seq::empty());
        reveal(Seq::filter);
        assert(requests_of(none) =~= Seq::<RequestView>::empty());
    }
}

proof fn lemma_unseparated_is_one_piece(s: Seq<u8>)
    requires
        forall|i: int| 0 <= i < s.len() ==> !is_separator(#[trigger] s[i]),
    ensures
        pieces(s) == seq![s],
    decreases s.len(),
{
    if s.len() == 0 {
        assert(s =~= Seq::empty());
    } else {
        let shorter = s.drop_last();
        assert forall|i: int| 0 <= i < shorter.len() implies !is_separator(#[trigger] shorter[i]) by {
            assert(shorter[i] == s[i]);
        }
        lemma_unseparated_is_one_piece(shorter);
        assert(shorter.push(s.last()) =~= s);
        assert(pieces(s) =~= seq![s]);
    }
}

/// A burst without separators is one command, whatever it says: it makes exactly one
/// request, and so is either carried out or answered with an error.
pub proof fn lone_command_makes_one_request(burst: Seq<u8>)
    requires
        burst.len() >= 2,
        forall|i: int| 0 <= i < burst.len() ==> !is_separator(#[trigger] burst[i]),
    ensures
        requests_in(burst) == seq![request_of(capitals(burst))],
{
    let line = capitals(burst);
    assert forall|i: int| 0 <= i < line.len() implies !is_separator(#[trigger] line[i]) by {
        assert(line[i] == capital(burst[i]));
    }
    lemma_unseparated_is_one_piece(line);
    let none = Seq::<Seq<u8>>::empty();
    lemma_requests_of_push(none, line);
    reveal(Seq::filter);
    assert(requests_of(none) =~= Seq::<RequestView>::empty());
    assert(pieces(line) =~= none.push(line));
    assert(requests_in(burst) =~= seq![request_of(line)]);
}

/// The burst after a run of single-byte reads, and whether all of them asked for more.
pub open spec fn after_bytes(bytes: Seq<u8>) -> (BurstView, bool)
    decreases bytes.len(),
{
    if bytes.len() == 0 {
        (empty_burst(), true)
    } else {
        let (burst, open) = after_bytes(bytes.drop_last());
        if open {
            let (next, step) = after_read(burst, ReadEvent::Read { count: 1, byte: bytes.last() });
            (next, step == ReadStep::ReadMore)
        } else {
            (burst, false)
        }
    }
}

/// A burst collects the bytes in the order of their arrival, and is cut off only when the
/// buffer has filled. The first byte is waited for without hurry, every later one only
/// for a moment.
pub proof fn burst_collects_bytes_in_order(bytes: Seq<u8>)
    ensures
        after_bytes(bytes).0.timeout == (if bytes.len() == 0 {
            RX_TO_MAX_MS
        } else {
            RX_TO_MS
        }),
        bytes.len() <= RCV_BUF_LEN ==> after_bytes(bytes).0.bytes == bytes && after_bytes(bytes).1,
        bytes.len() > RCV_BUF_LEN ==> after_bytes(bytes).0.bytes == bytes.take(
            RCV_BUF_LEN as int,
        ) && !after_bytes(bytes).1,
    decreases bytes.len(),
{
    if bytes.len() > 0 {
        burst_collects_bytes_in_order(bytes.drop_last());
        if bytes.len() <= RCV_BUF_LEN {
            assert(bytes.drop_last().push(bytes.last()) =~= bytes);
        } else {
            assert(bytes.drop_last().take(RCV_BUF_LEN as int) =~= bytes.take(RCV_BUF_LEN as int));
            if bytes.drop_last().len() == RCV_BUF_LEN {
                assert(bytes.drop_last() =~= bytes.take(RCV_BUF_LEN as int));
            }
        }
    }
}

/// A request for a new angle changes that target and nothing else, and only if its text
/// could be read.
pub proof fn only_readable_targets_are_set(
    ctx: AppContext,
    request: RequestView,
    az: Option<AzAngle>,
    el: Option<ElAngle>,
)
    ensures
        ({
            let (ctx1, reply) = answered(ctx, request, az, el);
            ||| ctx1 == ctx
            ||| {
                &&& request is SetAz
                &&& az is Some
                &&& reply is Silent
                &&& ctx1 == AppContext { target_az: az->0, ..ctx }
            }
            ||| {
                &&& request is SetEl
                &&& el is Some
                &&& reply is Silent
                &&& ctx1 == AppContext { target_el: el->0, ..ctx }
            }
        }),
{
}

/// In automatic control a new azimuth is the one that is commanded from then on, and in
/// manual control it is not: there the potentiometer keeps deciding. The same holds of
/// the elevation.
pub proof fn new_target_is_commanded_unless_manual(
    ctx: AppContext,
    text: Seq<u8>,
    az: AzAngle,
    el: ElAngle,
)
    ensures
        ({
            let ctx1 = answered(ctx, RequestView::SetAz(text), Some(az), Some(el)).0;
            &&& ctx1.commanded_az() == (if ctx.manual {
                ctx.az_pot
            } else {
                az
            })
            &&& ctx1.commanded_el() == ctx.commanded_el()
        }),
        ({
            let ctx1 = answered(ctx, RequestView::SetEl(text), Some(az), Some(el)).0;
            &&& ctx1.commanded_el() == (if ctx.manual {
                ctx.el_pot
            } else {
                el
            })
            &&& ctx1.commanded_az() == ctx.commanded_az()
        }),
{
}

/// Decimal notation: a single digit stands for itself, and a digit behind a number adds its
/// value to ten times the number.
pub proof fn decimal_appends_digits(n: nat, d: nat)
    requires
        d < 10,
    ensures
        decimal(d) == seq![(48 + d) as u8],
        n > 0 ==> decimal(10 * n + d) == decimal(n).push((48 + d) as u8),
{
    assert((10 * n + d) / 10 == n && (10 * n + d) % 10 == d);
}

/// How an answer to a query reads: a plus sign, whole degrees in decimal, a point, one digit
/// of tenths, a line feed. Degrees and tenths together are no further from the angle than
/// half a tenth.
pub proof fn angle_answer_reads_as_the_angle(centi: u16)
    ensures
        ({
            let line = angle_answer(centi);
            let n = line.len() as int;
            let tenth = line[n - 2] - 48;
            &&& n >= 5
            &&& line[0] == 43
            &&& line[n - 3] == 46
            &&& 0 <= tenth < 10
            &&& line[n - 1] == 10
            &&& exists|degrees: nat|
                {
                    &&& #[trigger] decimal(degrees) == line.subrange(1, n - 3)
                    &&& centi - 5 <= 100 * degrees + 10 * tenth <= centi + 5
                }
        }),
{
    one_decimal_is_nearest(centi);
    let line = angle_answer(centi);
    let degrees = tenths_of(centi) / 10;
    assert(line.subrange(1, line.len() - 3) =~= decimal(degrees));
    assert(decimal(degrees).len() >= 1);
}

/// A query for the azimuth is answered from the reported azimuth alone, whatever else the
/// shared state holds, and changes nothing: two states that agree on it get one answer, and
/// for `d` whole degrees the answer is `+d.0`.
pub proof fn azimuth_query_tells_the_reported_azimuth(
    ctx: AppContext,
    other: AppContext,
    az: Option<AzAngle>,
    el: Option<ElAngle>,
    d: u16,
)
    requires
        ctx.current_az == other.current_az,
    ensures
        answered(ctx, RequestView::QueryAz, az, el).0 == ctx,
        answered(ctx, RequestView::QueryAz, az, el).1 == ReplyView::Line(
            angle_answer(ctx.current_az.centi),
        ),
        answered(ctx, RequestView::QueryAz, az, el).1 == answered(
            other,
            RequestView::QueryAz,
            None,
            None,
        ).1,
        ctx.current_az.centi == 100 * d ==> answered(ctx, RequestView::QueryAz, az, el).1
            == ReplyView::Line(seq![43u8] + decimal(d as nat) + seq![46u8, 48u8, 10u8]),
{
    if ctx.current_az.centi == 100 * d {
        whole_degrees_are_answered_with_a_zero(d);
    }
}

/// A query for the elevation is answered from the reported elevation alone, in the same way.
pub proof fn elevation_query_tells_the_reported_elevation(
    ctx: AppContext,
    other: AppContext,
    az: Option<AzAngle>,
    el: Option<ElAngle>,
    d: u16,
)
    requires
        ctx.current_el == other.current_el,
    ensures
        answered(ctx, RequestView::QueryEl, az, el).0 == ctx,
        answered(ctx, RequestView::QueryEl, az, el).1 == ReplyView::Line(
            angle_answer(ctx.current_el.centi),
        ),
        answered(ctx, RequestView::QueryEl, az, el).1 == answered(
            other,
            RequestView::QueryEl,
            None,
            None,
        ).1,
        ctx.current_el.centi == 100 * d ==> answered(ctx, RequestView::QueryEl, az, el).1
            == ReplyView::Line(seq![43u8] + decimal(d as nat) + seq![46u8, 48u8, 10u8]),
{
    if ctx.current_el.centi == 100 * d {
        whole_degrees_are_answered_with_a_zero(d);
    }
}

/// A new angle that could be read becomes the target in every state, manual or not, and
/// without a word; nothing else changes. One that could not be read changes nothing and is
/// answered with an error, whatever the other angle.
pub proof fn readable_angle_becomes_the_target(
    ctx: AppContext,
    text: Seq<u8>,
    az: AzAngle,
    el: ElAngle,
    other_az: Option<AzAngle>,
    other_el: Option<ElAngle>,
)
    ensures
        answered(ctx, RequestView::SetAz(text), Some(az), other_el) == (
            AppContext { target_az: az, ..ctx },
            ReplyView::Silent,
        ),
        answered(ctx, RequestView::SetEl(text), other_az, Some(el)) == (
            AppContext { target_el: el, ..ctx },
            ReplyView::Silent,
        ),
        answered(ctx, RequestView::SetAz(text), None, other_el) == (ctx, ReplyView::Error),
        answered(ctx, RequestView::SetEl(text), other_az, None) == (ctx, ReplyView::Error),
{
}

/// What is not understood is answered with an error and a question for the version with
/// the version, and neither changes anything.
pub proof fn other_requests_change_nothing(
    ctx: AppContext,
    az: Option<AzAngle>,
    el: Option<ElAngle>,
)
    ensures
        answered(ctx, RequestView::Invalid, az, el) == (ctx, ReplyView::Error),
        answered(ctx, RequestView::Version, az, el) == (ctx, ReplyView::Version),
{
}

/// What a command without separators means, by its own bytes: `AZ` or `EL` alone is a query,
/// with three to five bytes behind it a new angle in those bytes (letters as capitals), and
/// with any other number of bytes nothing; `VE` asks for the version, whatever follows; no
/// other pair of letters means anything. Letters count the same in either case.
pub proof fn command_means_what_it_says(burst: Seq<u8>)
    requires
        burst.len() >= 2,
        forall|i: int|
            0 <= i < burst.len() ==> #[trigger] burst[i] != 10 && burst[i] != 13 && burst[i] != 32,
    ensures
        ({
            let n = burst.len();
            let ve = (burst[0] == 86 || burst[0] == 118) && (burst[1] == 69 || burst[1] == 101);
            let az = (burst[0] == 65 || burst[0] == 97) && (burst[1] == 90 || burst[1] == 122);
            let el = (burst[0] == 69 || burst[0] == 101) && (burst[1] == 76 || burst[1] == 108);
            let request = requests_in(burst)[0];
            &&& requests_in(burst).len() == 1
            &&& request == RequestView::Version <==> ve
            &&& request == RequestView::QueryAz <==> az && n == 2
            &&& request == RequestView::QueryEl <==> el && n == 2
            &&& request is SetAz <==> az && 5 <= n <= 7
            &&& request is SetEl <==> el && 5 <= n <= 7
            &&& request is SetAz ==> request->SetAz_0.len() == n - 2
            &&& request is SetEl ==> request->SetEl_0.len() == n - 2
            &&& forall|i: int|
                #![trigger burst[i]]
                2 <= i < n ==> {
                    let b = if 97 <= burst[i] <= 122 {
                        burst[i] - 32
                    } else {
                        burst[i] as int
                    };
                    &&& request is SetAz ==> request->SetAz_0[i - 2] == b
                    &&& request is SetEl ==> request->SetEl_0[i - 2] == b
                }
        }),
{
    lone_command_makes_one_request(burst);
    let line = capitals(burst);
    assert(line[0] == capital(burst[0]) && line[1] == capital(burst[1]));
    assert forall|i: int| #![trigger burst[i]] 2 <= i < burst.len() implies line.skip(2)[i - 2]
        == capital(burst[i]) by {
        assert(line[i] == capital(burst[i]));
    }
}

/// Bursts are cut at CR, LF and SPACE and nowhere else: the commands on the two sides of a
/// separator are taken one side after the other, each side as if it had come alone. Only a
/// side of a single byte makes no request here, while a burst of a single byte is one that
/// is not understood.
pub proof fn burst_is_cut_at_separators(a: Seq<u8>, separator: u8, b: Seq<u8>)
    requires
        separator == 10 || separator == 13 || separator == 32,
        a.len() + b.len() > 0,
    ensures
        requests_in(a.push(separator) + b) == (if a.len() == 1 {
            Seq::empty()
        } else {
            requests_in(a)
        }) + (if b.len() == 1 {
            Seq::empty()
        } else {
            requests_in(b)
        }),
{
    let ca = capitals(a);
    let cb = capitals(b);
    let whole = a.push(separator) + b;
    assert(capitals(whole) =~= ca.push(separator) + cb);
    lemma_pieces_of_joined(ca, separator, cb);
    lemma_requests_of_joined(pieces(ca), pieces(cb));
    if a.len() == 1 {
        lemma_byte_makes_no_request(ca);
    } else {
        lemma_empty_burst_makes_no_request(a);
    }
    if b.len() == 1 {
        lemma_byte_makes_no_request(cb);
    } else {
        lemma_empty_burst_makes_no_request(b);
    }
}

proof fn lemma_byte_makes_no_request(s: Seq<u8>)
    requires
        s.len() == 1,
    ensures
        requests_of(pieces(s)) == Seq::<RequestView>::empty(),
{
    let none = Seq::<Seq<u8>>::empty();
    reveal(Seq::filter);
    assert(requests_of(none) =~= Seq::<RequestView>::empty());
    assert(s.drop_last() =~= Seq::empty());
    assert(pieces(s.drop_last()) =~= none.push(Seq::empty()));
    let empty = Seq::<u8>::empty();
    if is_separator(s.last()) {
        assert(pieces(s) =~= none.push(empty).push(empty));
        lemma_requests_of_push(none, empty);
        lemma_requests_of_push(none.push(empty), empty);
    } else {
        assert(none.push(empty).drop_last() =~= none);
        assert(pieces(s) =~= none.push(empty.push(s.last())));
        lemma_requests_of_push(none, empty.push(s.last()));
    }
}

/// An empty burst makes no request, and a single byte, whatever it is, one that is not
/// understood.
pub proof fn shortest_bursts(b: u8)
    ensures
        requests_in(Seq::empty()).len() == 0,
        requests_in(seq![b]) == seq![RequestView::Invalid],
{
}

/// What one read does: a byte goes behind the others as long as there are fewer than 128,
/// and from then on the next may take 20 milliseconds. With 128 in place, or where nothing
/// was read, the burst is complete as it is; so it is after a fault and when the time has
/// run out. A burst starts empty, and its first byte may take a week.
pub proof fn read_adds_one_byte(burst: BurstView, count: usize, byte: u8)
    ensures
        empty_burst().bytes.len() == 0,
        empty_burst().timeout == 7 * 24 * 60 * 60 * 1000,
        after_read(burst, ReadEvent::Timeout) == (burst, ReadStep::Complete),
        after_read(burst, ReadEvent::Failed) == (burst, ReadStep::Complete),
        ({
            let (after, step) = after_read(burst, ReadEvent::Read { count, byte });
            &&& after.timeout == 20
            &&& step == ReadStep::ReadMore <==> count > 0 && burst.bytes.len() < 128
            &&& step == ReadStep::ReadMore ==> after.bytes == burst.bytes.push(byte)
            &&& step == ReadStep::Complete ==> after.bytes == burst.bytes
        }),
{
}

} // verus!

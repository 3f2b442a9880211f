//! One instance at a time: the socket that the first instance listens on, and the
//! messages that later ones send to it.

use crate::paths::{join_path, joined};
use crate::text::{
    is_whitespace, join, join_texts, law_one_separator_between_neighbours,
    law_only_white_space_is_trimmed, law_split_undoes_join, law_trimming_finds_the_core, opt_str,
    split, split_text, strict_text, strict_utf8, texts, trim_text, trimmed,
};
use vstd::prelude::*;
use vstd::string::*;
use vstd::utf8::*;

verus! {

/// Stands between two arguments in a message: the ASCII record separator, which
/// leaves spaces and quotes alone.
pub const SEPARATOR: char = '\u{1e}';

/// The permissions of the socket: for its owner only.
pub const SOCKET_MODE: u32 = 0o700;

/// The file name of the socket.
pub open spec fn socket_file_name(suffix: Option<Seq<char>>) -> Seq<char> {
    match suffix {
        Some(s) => "cinnamon-wallpaper-"@ + s + ".sock"@,
        None => "cinnamon-wallpaper.sock"@,
    }
}

/// Where the socket lives: in the runtime directory, or among the user's data, or
/// among the temporary files.
pub open spec fn socket_path_in(
    suffix: Option<Seq<char>>,
    runtime_dir: Option<Seq<char>>,
    home: Option<Seq<char>>,
) -> Seq<char> {
    let name = socket_file_name(suffix);
    match (runtime_dir, home) {
        (Some(dir), _) => joined(dir, name),
        (None, Some(h)) => joined(joined(h, ".local/share/cinnamon-wallpaper"@), name),
        (None, None) => joined("/tmp"@, name),
    }
}

/// Where the socket lives, from the value of `XDG_RUNTIME_DIR` and the home
/// directory.
pub fn socket_path(suffix: Option<&str>, runtime_dir: Option<&str>, home: Option<&str>) -> (path:
    String)
    ensures
        path@ == socket_path_in(opt_str(suffix), opt_str(runtime_dir), opt_str(home)),
{
    let name = match suffix {
        Some(s) => "cinnamon-wallpaper-".to_owned().concat(s).concat(".sock"),
        None => "cinnamon-wallpaper.sock".to_owned(),
    };
    match runtime_dir {
        Some(dir) => join_path(dir, name.as_str()),
        None => match home {
            Some(h) => {
                let dir = join_path(h, ".local/share/cinnamon-wallpaper");
                join_path(dir.as_str(), name.as_str())
            },
            None => join_path("/tmp", name.as_str()),
        },
    }
}

/// The graphical interface and the wallpaper runner listen on different sockets.
pub proof fn law_sockets_differ(runtime_dir: Option<Seq<char>>, home: Option<Seq<char>>)
    ensures
        socket_path_in(Some("gui"@), runtime_dir, home) != socket_path_in(None, runtime_dir, home),
{
    reveal_strlit("gui");
    reveal_strlit("cinnamon-wallpaper-");
    reveal_strlit("cinnamon-wallpaper.sock");
    reveal_strlit(".sock");
    reveal_strlit("/tmp");
    let a = socket_file_name(Some("gui"@));
    let b = socket_file_name(None);
    assert(a.len() == b.len() + 4);
    assert(a[0] == 'c' && b[0] == 'c');
    let dir = match (runtime_dir, home) {
        (Some(dir), _) => dir,
        (None, Some(h)) => joined(h, ".local/share/cinnamon-wallpaper"@),
        (None, None) => "/tmp"@,
    };
    assert(joined(dir, a).len() == joined(dir, b).len() + 4);
    assert(socket_path_in(Some("gui"@), runtime_dir, home) == joined(dir, a));
    assert(socket_path_in(None, runtime_dir, home) == joined(dir, b));
}

/// Where the socket lives does not depend on whose it is: the runtime directory comes first,
/// then the home directory, and without either it is among the temporary files.
pub proof fn law_socket_directory(suffix: Option<Seq<char>>, dir: Seq<char>, home: Option<Seq<char>>)
    ensures
        socket_path_in(suffix, Some(dir), home) == joined(dir, socket_file_name(suffix)),
        home matches Some(h) ==> socket_path_in(suffix, None, home) == joined(
            joined(h, ".local/share/cinnamon-wallpaper"@),
            socket_file_name(suffix),
        ),
        socket_path_in(suffix, None, None) == joined("/tmp"@, socket_file_name(suffix)),
{
}

/// The name of a socket holds the whole suffix, between the program's name and the ending:
/// two suffixes never share a socket.
pub proof fn law_each_suffix_has_its_socket(
    a: Seq<char>,
    b: Seq<char>,
    runtime_dir: Option<Seq<char>>,
    home: Option<Seq<char>>,
)
    ensures
        socket_file_name(Some(a)) == "cinnamon-wallpaper-"@ + a + ".sock"@,
        socket_file_name(None) == "cinnamon-wallpaper.sock"@,
        socket_path_in(Some(a), runtime_dir, home) != socket_path_in(None, runtime_dir, home),
        a != b ==> socket_path_in(Some(a), runtime_dir, home) != socket_path_in(
            Some(b),
            runtime_dir,
            home,
        ),
{
    reveal_strlit("cinnamon-wallpaper-");
    reveal_strlit("cinnamon-wallpaper.sock");
    reveal_strlit(".sock");
    let x = socket_file_name(Some(a));
    let y = socket_file_name(Some(b));
    let z = socket_file_name(None);
    assert(x[0] == 'c' && y[0] == 'c' && z[0] == 'c');
    let dir = match (runtime_dir, home) {
        (Some(dir), _) => dir,
        (None, Some(h)) => joined(h, ".local/share/cinnamon-wallpaper"@),
        (None, None) => "/tmp"@,
    };
    assert(x.len() > z.len());
    assert(joined(dir, x).len() - x.len() == joined(dir, z).len() - z.len());
    let k = joined(dir, x).len() - x.len();
    assert(joined(dir, x).skip(k) =~= x);
    assert(joined(dir, y).skip(k) =~= y);
    if joined(dir, x) == joined(dir, y) {
        assert(x == y);
        assert(a.len() == b.len());
        assert(x.subrange(19, (19 + a.len()) as int) =~= a);
        assert(y.subrange(19, (19 + b.len()) as int) =~= b);
    }
}

// Messages.

/// The message that stands for a message without arguments.
pub open spec fn message_of(args_msg: Seq<char>) -> Seq<char> {
    if trimmed(args_msg).len() == 0 {
        "--gui"@
    } else {
        args_msg
    }
}

/// What is sent to the running instance: the message itself, or the request for
/// the graphical interface when the message is blank.
pub fn message_to_send(args_msg: &str) -> (message: String)
    ensures
        message@ == message_of(args_msg@),
{
    let text = trim_text(args_msg);
    if text.as_str().is_empty() {
        "--gui".to_owned()
    } else {
        args_msg.to_owned()
    }
}

/// The arguments as one message.
pub fn encode_args(args: &Vec<String>) -> (message: String)
    ensures
        message@ == join(texts(args@), SEPARATOR),
{
    join_texts(args, SEPARATOR)
}

/// The pieces that hold something.
pub open spec fn nonempty(pieces: Seq<Seq<char>>) -> Seq<Seq<char>> {
    pieces.filter(|p: Seq<char>| p.len() > 0)
}

/// The command line that a message stands for: the program's name, then the
/// arguments, without empty ones.
pub open spec fn received_args(message: Seq<char>) -> Seq<Seq<char>> {
    seq!["cinnamon-wallpaper"@] + nonempty(split(message, SEPARATOR))
}

/// The command line that a message stands for.
pub fn decode_args(message: &str) -> (args: Vec<String>)
    ensures
        texts(args@) == received_args(message@),
{
    let pieces = split_text(message, SEPARATOR);
    let mut args: Vec<String> = vec!["cinnamon-wallpaper".to_owned()];
    let ghost parts = texts(pieces@);
    proof {
        reveal(Seq::filter);
        assert(texts(args@) =~= seq!["cinnamon-wallpaper"@] + nonempty(parts.take(0)));
    }
    for i in 0..pieces.len()
        invariant
            parts == texts(pieces@),
            texts(args@) == seq!["cinnamon-wallpaper"@] + nonempty(parts.take(i as int)),
    {
        let ghost before = texts(args@);
        proof {
            reveal(Seq::filter);
            assert(parts.take(i + 1).drop_last() =~= parts.take(i as int));
        }
        if !pieces[i].as_str().is_empty() {
            args.push(pieces[i].clone());
            assert(texts(args@) =~= before.push(parts[i as int]));
            assert(texts(args@) =~= seq!["cinnamon-wallpaper"@] + nonempty(parts.take(i + 1)));
        }
    }
    assert(parts.take(parts.len() as int) =~= parts);
    args
}

/// What one instance sends, the running one receives: the same arguments in the
/// same order, except that empty arguments are lost, and that a blank command line
/// becomes the request for the graphical interface. Arguments that hold the
/// separator itself are left out.
pub proof fn law_arguments_survive_the_message(args: Seq<Seq<char>>)
    requires
        forall|i: int| 0 <= i < args.len() ==> !(#[trigger] args[i]).contains(SEPARATOR),
    ensures
        received_args(message_of(join(args, SEPARATOR))) == seq!["cinnamon-wallpaper"@] + (
        if trimmed(join(args, SEPARATOR)).len() == 0 {
            seq!["--gui"@]
        } else {
            nonempty(args)
        }),
{
    let message = join(args, SEPARATOR);
    if trimmed(message).len() == 0 {
        let one = seq!["--gui"@];
        reveal_strlit("--gui");
        assert forall|i: int| 0 <= i < one.len() implies !(#[trigger] one[i]).contains(
            SEPARATOR,
        ) by {}
        law_split_undoes_join(one, SEPARATOR);
        assert(join(one, SEPARATOR) == "--gui"@);
        reveal_with_fuel(Seq::filter, 2);
        assert(one.drop_last() =~= Seq::<Seq<char>>::empty());
        assert(nonempty(one) =~= one);
    } else {
        if args.len() == 0 {
            assert(trimmed(message).len() == 0);
        }
        law_split_undoes_join(args, SEPARATOR);
    }
}

proof fn lemma_nothing_is_lost(args: Seq<Seq<char>>)
    requires
        forall|i: int| 0 <= i < args.len() ==> (#[trigger] args[i]).len() > 0,
    ensures
        nonempty(args) == args,
    decreases args.len(),
{
    reveal(Seq::filter);
    if args.len() > 0 {
        let front = args.drop_last();
        assert forall|i: int| 0 <= i < front.len() implies (#[trigger] front[i]).len() > 0 by {
            assert(front[i] == args[i]);
        }
        lemma_nothing_is_lost(front);
        assert(args.last() == args[args.len() - 1]);
        assert(nonempty(args) =~= front.push(args.last()));
        assert(front.push(args.last()) =~= args);
    } else {
        assert(nonempty(args) =~= args);
    }
}

/// Arguments that are not empty and do not hold the separator arrive as they are, behind the
/// program's name, as soon as one of them has a character that is not white space.
pub proof fn law_arguments_arrive_unchanged(args: Seq<Seq<char>>, i: int, k: int)
    requires
        forall|j: int| 0 <= j < args.len() ==> !(#[trigger] args[j]).contains(SEPARATOR),
        forall|j: int| 0 <= j < args.len() ==> (#[trigger] args[j]).len() > 0,
        0 <= i < args.len(),
        0 <= k < args[i].len(),
        !is_whitespace(args[i][k]),
    ensures
        message_of(join(args, SEPARATOR)) == join(args, SEPARATOR),
        received_args(join(args, SEPARATOR)) == seq!["cinnamon-wallpaper"@] + args,
{
    let message = join(args, SEPARATOR);
    let at = lemma_joined_position(args, SEPARATOR, i, k);
    law_message_is_sent_as_it_is(message, at);
    law_split_undoes_join(args, SEPARATOR);
    lemma_nothing_is_lost(args);
}

proof fn lemma_joined_position(args: Seq<Seq<char>>, sep: char, i: int, k: int) -> (at: int)
    requires
        0 <= i < args.len(),
        0 <= k < args[i].len(),
    ensures
        0 <= at < join(args, sep).len(),
        join(args, sep)[at] == args[i][k],
    decreases args.len(),
{
    let front = args.drop_last();
    if args.len() == 1 {
        assert(args =~= seq![args[0]]);
        law_one_separator_between_neighbours(args, args[0], sep);
        k
    } else {
        assert(front.push(args.last()) =~= args);
        law_one_separator_between_neighbours(front, args.last(), sep);
        if i < args.len() - 1 {
            assert(front[i] == args[i]);
            lemma_joined_position(front, sep, i, k)
        } else {
            join(front, sep).len() + 1 + k
        }
    }
}

/// A message that has a character other than white space is sent as it is.
pub proof fn law_message_is_sent_as_it_is(message: Seq<char>, i: int)
    requires
        0 <= i < message.len(),
        !is_whitespace(message[i]),
    ensures
        message_of(message) == message,
{
    law_only_white_space_is_trimmed(message);
    let (from, to) = choose|from: int, to: int|
        0 <= from <= to <= message.len() && trimmed(message) == #[trigger] message.subrange(
            from,
            to,
        ) && (forall|j: int|
            0 <= j < from || to <= j < message.len() ==> is_whitespace(#[trigger] message[j]));
    assert(from <= i < to);
}

/// A message of nothing but white space becomes the request for the interface.
pub proof fn law_blank_message_asks_for_the_interface(message: Seq<char>)
    requires
        forall|i: int| 0 <= i < message.len() ==> is_whitespace(#[trigger] message[i]),
    ensures
        message_of(message) == "--gui"@,
{
    law_trimming_finds_the_core(message, Seq::<char>::empty(), Seq::<char>::empty());
    assert(message + Seq::<char>::empty() + Seq::<char>::empty() =~= message);
}

/// Of the received pieces exactly the empty ones are lost, and the others keep their order.
pub proof fn law_empty_pieces_are_lost(pieces: Seq<Seq<char>>, piece: Seq<char>)
    ensures
        nonempty(Seq::<Seq<char>>::empty()) == Seq::<Seq<char>>::empty(),
        nonempty(pieces.push(piece)) == if piece.len() > 0 {
            nonempty(pieces).push(piece)
        } else {
            nonempty(pieces)
        },
{
    reveal(Seq::filter);
    assert(pieces.push(piece).drop_last() =~= pieces);
}

// Becoming the primary instance.

/// What was found out on the way to becoming the primary instance.
pub enum Observed {
    /// Whether the socket file is there.
    SocketFile(bool),
    /// Whether somebody answered at the socket that was there.
    Connected(bool),
    /// The stale socket file was removed, as far as that could be done.
    SocketRemoved,
    /// The socket was bound, or why it was not.
    Bound(Result<(), String>),
    /// Whether somebody answered after all, and why the socket was not bound.
    ConnectedAfterBind(bool, String),
}

/// What to do next on the way to becoming the primary instance.
pub enum AcquireStep {
    /// Try to reach a running instance.
    Connect,
    /// Nobody listens: remove the socket file.
    RemoveSocket,
    /// Bind the socket.
    Bind,
    /// Try once more to reach a running instance; the reason is kept.
    ConnectAgain(String),
    /// This is the primary instance: listen.
    Serve,
    /// Another instance runs: send it the message and leave.
    Send(String),
    /// Neither.
    Fail(String),
}

/// What was found out, as plain values.
pub enum ObservedView {
    SocketFile(bool),
    Connected(bool),
    SocketRemoved,
    Bound(Option<Seq<char>>),
    ConnectedAfterBind(bool, Seq<char>),
}

/// What to do next, as plain values.
pub enum StepView {
    Connect,
    RemoveSocket,
    Bind,
    ConnectAgain(Seq<char>),
    Serve,
    Send(Seq<char>),
    Fail(Seq<char>),
}

impl View for Observed {
    type V = ObservedView;

    open spec fn view(&self) -> ObservedView {
        match *self {
            Observed::SocketFile(there) => ObservedView::SocketFile(there),
            Observed::Connected(answered) => ObservedView::Connected(answered),
            Observed::SocketRemoved => ObservedView::SocketRemoved,
            Observed::Bound(Ok(_)) => ObservedView::Bound(None),
            Observed::Bound(Err(e)) => ObservedView::Bound(Some(e@)),
            Observed::ConnectedAfterBind(answered, e) => ObservedView::ConnectedAfterBind(
                answered,
                e@,
            ),
        }
    }
}

impl View for AcquireStep {
    type V = StepView;

    open spec fn view(&self) -> StepView {
        match *self {
            AcquireStep::Connect => StepView::Connect,
            AcquireStep::RemoveSocket => StepView::RemoveSocket,
            AcquireStep::Bind => StepView::Bind,
            AcquireStep::ConnectAgain(e) => StepView::ConnectAgain(e@),
            AcquireStep::Serve => StepView::Serve,
            AcquireStep::Send(message) => StepView::Send(message@),
            AcquireStep::Fail(e) => StepView::Fail(e@),
        }
    }
}

/// What is found out on the way, and what is to be done, is seen as it is: with every answer,
/// reason and message.
pub proof fn law_way_is_seen_as_it_is(answer: bool, text: String)
    ensures
        Observed::SocketFile(answer)@ == ObservedView::SocketFile(answer),
        Observed::Connected(answer)@ == ObservedView::Connected(answer),
        Observed::SocketRemoved@ == ObservedView::SocketRemoved,
        Observed::Bound(Ok(()))@ == ObservedView::Bound(None),
        Observed::Bound(Err(text))@ == ObservedView::Bound(Some(text@)),
        Observed::ConnectedAfterBind(answer, text)@ == ObservedView::ConnectedAfterBind(
            answer,
            text@,
        ),
        AcquireStep::Connect@ == StepView::Connect,
        AcquireStep::RemoveSocket@ == StepView::RemoveSocket,
        AcquireStep::Bind@ == StepView::Bind,
        AcquireStep::ConnectAgain(text)@ == StepView::ConnectAgain(text@),
        AcquireStep::Serve@ == StepView::Serve,
        AcquireStep::Send(text)@ == StepView::Send(text@),
        AcquireStep::Fail(text)@ == StepView::Fail(text@),
{
}

/// The step that follows from what was found out.
pub open spec fn next_step(args_msg: Seq<char>, seen: ObservedView) -> StepView {
    match seen {
        ObservedView::SocketFile(true) => StepView::Connect,
        ObservedView::SocketFile(false) => StepView::Bind,
        ObservedView::Connected(true) => StepView::Send(message_of(args_msg)),
        ObservedView::Connected(false) => StepView::RemoveSocket,
        ObservedView::SocketRemoved => StepView::Bind,
        ObservedView::Bound(None) => StepView::Serve,
        ObservedView::Bound(Some(e)) => StepView::ConnectAgain(e),
        ObservedView::ConnectedAfterBind(true, _) => StepView::Send(message_of(args_msg)),
        ObservedView::ConnectedAfterBind(false, e) => StepView::Fail(
            "Failed to bind or connect to instance socket: "@ + e,
        ),
    }
}

/// Try to become the primary instance, step by step: given what was found out
/// last, what to do next. With `Serve` this is the primary instance; with `Send`
/// another instance exists and gets the message.
pub fn acquire_instance_and_maybe_send(args_msg: &str, seen: Observed) -> (step: AcquireStep)
    ensures
        step@ == next_step(args_msg@, seen@),
{
    match seen {
        Observed::SocketFile(there) => if there {
            AcquireStep::Connect
        } else {
            AcquireStep::Bind
        },
        Observed::Connected(answered) => if answered {
            AcquireStep::Send(message_to_send(args_msg))
        } else {
            AcquireStep::RemoveSocket
        },
        Observed::SocketRemoved => AcquireStep::Bind,
        Observed::Bound(Ok(_)) => AcquireStep::Serve,
        Observed::Bound(Err(e)) => AcquireStep::ConnectAgain(e),
        Observed::ConnectedAfterBind(answered, e) => if answered {
            AcquireStep::Send(message_to_send(args_msg))
        } else {
            AcquireStep::Fail(
                "Failed to bind or connect to instance socket: ".to_owned().concat(e.as_str()),
            )
        },
    }
}

/// How the world answers to each step on the way.
pub struct Answers {
    pub socket_there: bool,
    pub connects: bool,
    pub bind_error: Option<Seq<char>>,
    pub connects_after_bind: bool,
}

/// What is found out when `step` is taken; nothing after the last step.
pub open spec fn answer(world: Answers, step: StepView) -> Option<ObservedView> {
    match step {
        StepView::Connect => Some(ObservedView::Connected(world.connects)),
        StepView::RemoveSocket => Some(ObservedView::SocketRemoved),
        StepView::Bind => Some(ObservedView::Bound(world.bind_error)),
        StepView::ConnectAgain(e) => Some(
            ObservedView::ConnectedAfterBind(world.connects_after_bind, e),
        ),
        _ => None,
    }
}

/// Where the steps lead that follow from `seen`, `fuel` of them at most.
pub open spec fn outcome(
    args_msg: Seq<char>,
    world: Answers,
    seen: ObservedView,
    fuel: nat,
) -> StepView
    decreases fuel,
{
    let step = next_step(args_msg, seen);
    match answer(world, step) {
        Some(next) if fuel > 0 => outcome(args_msg, world, next, (fuel - 1) as nat),
        _ => step,
    }
}

/// Every attempt ends after at most five steps: as the primary instance exactly
/// when nobody answers at a socket that is there and the socket can be bound, with
/// the message sent exactly when somebody answers, and otherwise in failure.
pub proof fn law_acquire_ends(args_msg: Seq<char>, world: Answers, fuel: nat)
    requires
        fuel >= 4,
    ensures
        outcome(args_msg, world, ObservedView::SocketFile(world.socket_there), fuel) == (
        if world.socket_there && world.connects {
            StepView::Send(message_of(args_msg))
        } else if world.bind_error is None {
            StepView::Serve
        } else if world.connects_after_bind {
            StepView::Send(message_of(args_msg))
        } else {
            StepView::Fail(
                "Failed to bind or connect to instance socket: "@ + world.bind_error->Some_0,
            )
        }),
{
    reveal_with_fuel(outcome, 5);
}

/// A socket file that is there is first tried, and removed when nobody answers; the socket is
/// bound only where no file is in the way. A running instance is never cut off: the file stays
/// when somebody answers.
pub proof fn law_stale_socket_is_removed(args_msg: Seq<char>, there: bool, answered: bool)
    ensures
        next_step(args_msg, ObservedView::SocketFile(there)) == if there {
            StepView::Connect
        } else {
            StepView::Bind
        },
        next_step(args_msg, ObservedView::Connected(answered)) == StepView::RemoveSocket
            <==> !answered,
        next_step(args_msg, ObservedView::SocketRemoved) == StepView::Bind,
{
}

// Handling messages.

/// The place for the function that is called when another instance sends a
/// message.
pub struct HandlerSlot<F> {
    handler: Option<F>,
}

impl<F> View for HandlerSlot<F> {
    type V = Option<F>;

    closed spec fn view(&self) -> Option<F> {
        self.handler
    }
}

impl<F> HandlerSlot<F> {
    /// A slot without a handler.
    pub fn new() -> (slot: Self)
        ensures
            slot@ == None::<F>,
    {
        HandlerSlot { handler: None }
    }
}

/// Registers the handler that is called when another instance sends a message. It
/// takes the place of one that was registered before.
pub fn register_handler<F: Fn(String)>(slot: &mut HandlerSlot<F>, f: F)
    ensures
        final(slot)@ == Some(f),
{
    slot.handler = Some(f);
}

/// Hands a received message to the handler. Without one the message is dropped.
pub fn deliver<F: Fn(String)>(slot: &HandlerSlot<F>, message: String) -> (handled: bool)
    requires
        slot@ matches Some(h) ==> forall|m: String| call_requires(h, (m,)),
    ensures
        handled == (slot@ is Some),
        slot@ matches Some(h) ==> call_ensures(h, (message,), ()),
{
    match &slot.handler {
        Some(h) => {
            h(message);
            true
        },
        None => false,
    }
}

/// Takes what a client sent, all of it up to the end of its connection: when that is
/// text, it goes to the handler, whole and unchanged; other bytes are dropped.
pub fn receive<F: Fn(String)>(slot: &HandlerSlot<F>, bytes: &Vec<u8>) -> (handled: bool)
    requires
        slot@ matches Some(h) ==> forall|m: String| call_requires(h, (m,)),
    ensures
        handled == (slot@ is Some && strict_utf8(bytes@) is Some),
        handled ==> exists|m: String|
            Some(m@) == strict_utf8(bytes@) && #[trigger] call_ensures(slot@->Some_0, (m,), ()),
{
    match strict_text(bytes.as_slice()) {
        Some(message) => deliver(slot, message),
        None => false,
    }
}

/// A text that a client sends reaches the handler as it is: what is taken from the bytes
/// that stand for the text is the text.
pub proof fn law_message_arrives_unchanged(message: Seq<char>)
    ensures
        strict_utf8(encode_utf8(message)) == Some(message),
{
    encode_utf8_valid_utf8(message);
    encode_utf8_decode_utf8(message);
}

} // verus!

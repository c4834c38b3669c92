//! What a flight of handshake data does to keys, levels and streams.

use crate::crypto::keys::Open;
use crate::crypto::keys::Seal;
use crate::crypto::Level;
use crate::error::Error;
use crate::packet::CryptoContexts;
use crate::packet::SpaceView;
use crate::packet::SpacesView;
use rustls::quic::DirectionalKeys;
use rustls::quic::Secrets;
use vstd::prelude::*;

verus! {

/// Keys that become usable after a flight.
pub enum KeyChange {
    /// Keys for the rest of the handshake.
    Handshake { local: DirectionalKeys, remote: DirectionalKeys },
    /// Keys for application data, and what the keys after them are made from.
    OneRtt { local: DirectionalKeys, remote: DirectionalKeys, next: Secrets },
}

/// One flight of handshake data.
pub struct Flight {
    /// What to send.
    pub data: Vec<u8>,
    /// The keys that follow it.
    pub change: Option<KeyChange>,
    /// The keys for early data, once there are any.
    pub zero_rtt: Option<DirectionalKeys>,
}

/// One flight of handshake data, by contents.
pub struct FlightView {
    pub data: Seq<u8>,
    pub change: Option<KeyChange>,
    pub zero_rtt: Option<DirectionalKeys>,
}

impl View for Flight {
    type V = FlightView;

    open spec fn view(&self) -> FlightView {
        FlightView { data: self.data@, change: self.change, zero_rtt: self.zero_rtt }
    }
}

/// Where a handshake stands.
pub struct FlightState {
    /// The level that data is sent at.
    pub level: Level,
    /// Whether early data is in use.
    pub early: bool,
    /// Keys and streams.
    pub spaces: SpacesView,
}

/// Where a handshake stands.
pub open spec fn standing(level: Level, early: bool, spaces: SpacesView) -> FlightState {
    FlightState { level, early, spaces }
}

/// Whether keys for early data are put to use: always by a server, by a client as
/// long as it has no other keys to seal with.
pub open spec fn uses_zero_rtt(
    spaces: SpacesView,
    is_server: bool,
    keys: Option<DirectionalKeys>,
) -> bool {
    keys is Some && (is_server || spaces.application.seal is None)
}

/// The packet number spaces after keys for early data came. A server opens with
/// them, a client seals with them. Keys that are there already stay.
pub open spec fn with_zero_rtt(
    spaces: SpacesView,
    is_server: bool,
    keys: Option<DirectionalKeys>,
) -> SpacesView {
    let app = spaces.application;
    match keys {
        Some(keys) => if is_server && app.zero_rtt_open is None {
            let zero_rtt_open = Some(Open { keys, next: None });
            SpacesView { application: SpaceView { zero_rtt_open, ..app }, ..spaces }
        } else if !is_server && app.seal is None {
            let seal = Some(Seal { keys, next: None });
            SpacesView { application: SpaceView { seal, ..app }, ..spaces }
        } else {
            spaces
        },
        None => spaces,
    }
}

/// A packet number space with keys.
pub open spec fn with_keys(
    space: SpaceView,
    local: DirectionalKeys,
    remote: DirectionalKeys,
    next: Option<Secrets>,
) -> SpaceView {
    SpaceView {
        open: Some(Open { keys: remote, next }),
        seal: Some(Seal { keys: local, next }),
        ..space
    }
}

/// The packet number spaces after a key change.
pub open spec fn with_change(spaces: SpacesView, change: Option<KeyChange>) -> SpacesView {
    match change {
        None => spaces,
        Some(KeyChange::Handshake { local, remote }) => SpacesView {
            handshake: with_keys(spaces.handshake, local, remote, None),
            ..spaces
        },
        Some(KeyChange::OneRtt { local, remote, next }) => SpacesView {
            application: with_keys(spaces.application, local, remote, Some(next)),
            ..spaces
        },
    }
}

/// A packet number space with more data to send.
pub open spec fn with_data(space: SpaceView, data: Seq<u8>) -> SpaceView {
    SpaceView { pending: space.pending + data, ..space }
}

/// The packet number space that a level sends in.
pub open spec fn space_of(spaces: SpacesView, level: Level) -> SpaceView {
    match level {
        Level::Initial => spaces.initial,
        Level::Handshake => spaces.handshake,
        _ => spaces.application,
    }
}

/// The packet number spaces with more data to send at a level.
pub open spec fn with_data_at(spaces: SpacesView, level: Level, data: Seq<u8>) -> SpacesView {
    match level {
        Level::Initial => SpacesView { initial: with_data(spaces.initial, data), ..spaces },
        Level::Handshake => SpacesView { handshake: with_data(spaces.handshake, data), ..spaces },
        _ => SpacesView { application: with_data(spaces.application, data), ..spaces },
    }
}

/// The level that a flight is sent at. It is the current one, but a client at the
/// start sends what comes with handshake keys under those keys already.
pub open spec fn sending_level(level: Level, is_server: bool, change: Option<KeyChange>) -> Level {
    if change matches Some(KeyChange::Handshake { .. }) && level == Level::Initial && !is_server {
        Level::Handshake
    } else {
        level
    }
}

/// The level after a key change.
pub open spec fn level_after(level: Level, change: Option<KeyChange>) -> Level {
    match change {
        None => level,
        Some(KeyChange::Handshake { .. }) => Level::Handshake,
        Some(KeyChange::OneRtt { .. }) => Level::OneRTT,
    }
}

/// Whether a key change ends early data, as keys for application data do for a
/// client.
pub open spec fn ends_early_data(is_server: bool, change: Option<KeyChange>) -> bool {
    !is_server && change matches Some(KeyChange::OneRtt { .. })
}

/// Whether a flight's data can be put on its stream.
pub open spec fn can_send(s: FlightState, is_server: bool, flight: FlightView) -> bool {
    flight.data.len() == 0 || !space_of(
        s.spaces,
        sending_level(s.level, is_server, flight.change),
    ).finished
}

/// Where a handshake stands after a flight: keys for early data are taken, the data
/// is put on its stream, and the key change takes effect.
pub open spec fn after_flight(s: FlightState, is_server: bool, flight: FlightView) -> FlightState {
    let level = sending_level(s.level, is_server, flight.change);
    let keyed = with_zero_rtt(s.spaces, is_server, flight.zero_rtt);
    FlightState {
        level: level_after(s.level, flight.change),
        early: (s.early || uses_zero_rtt(s.spaces, is_server, flight.zero_rtt)) && !ends_early_data(
            is_server,
            flight.change,
        ),
        spaces: with_change(with_data_at(keyed, level, flight.data), flight.change),
    }
}

/// Where a handshake stands after some flights.
pub open spec fn after_flights(
    s: FlightState,
    is_server: bool,
    flights: Seq<FlightView>,
) -> FlightState
    decreases flights.len(),
{
    if flights.len() == 0 {
        s
    } else {
        after_flight(
            after_flights(s, is_server, flights.drop_last()),
            is_server,
            flights.last(),
        )
    }
}

/// Whether the data of every flight can be put on its stream, one after the other.
pub open spec fn all_sent(s: FlightState, is_server: bool, flights: Seq<FlightView>) -> bool
    decreases flights.len(),
{
    flights.len() > 0 ==> {
        &&& all_sent(s, is_server, flights.drop_last())
        &&& can_send(
            after_flights(s, is_server, flights.drop_last()),
            is_server,
            flights.last(),
        )
    }
}

/// Whether the data of the last flight cannot be put on its stream, and that of those
/// before it can.
pub open spec fn last_refused(s: FlightState, is_server: bool, flights: Seq<FlightView>) -> bool {
    &&& flights.len() > 0
    &&& all_sent(s, is_server, flights.drop_last())
    &&& !can_send(
        after_flights(s, is_server, flights.drop_last()),
        is_server,
        flights.last(),
    )
}

/// Where a handshake stands after some flights, the last of which could not be sent.
pub open spec fn after_refused(
    s: FlightState,
    is_server: bool,
    flights: Seq<FlightView>,
) -> FlightState {
    let t = after_flights(s, is_server, flights.drop_last());
    after_flight(t, is_server, without_data(t.level, is_server, flights.last()))
}

/// `quic::Secrets::clone`, which derives the copy field by field.
#[verifier::external_body]
fn copy_secrets(secrets: &Secrets) -> (r: Secrets)
    ensures
        r == *secrets,
{
    secrets.clone()
}

/// Takes keys for early data.
pub fn install_zero_rtt_keys(
    ctx: &mut CryptoContexts,
    early: &mut bool,
    is_server: bool,
    keys: Option<DirectionalKeys>,
)
    ensures
        final(ctx)@ == with_zero_rtt(old(ctx)@, is_server, keys),
        *final(early) == (*old(early) || uses_zero_rtt(old(ctx)@, is_server, keys)),
{
    match keys {
        None => {},
        Some(keys) => {
            if is_server {
                if ctx.application.crypto_0rtt_open.is_none() {
                    ctx.application.crypto_0rtt_open = Some(Open::from_rustls(keys, None));
                }
                *early = true;
            } else if ctx.application.crypto_seal.is_none() {
                ctx.application.crypto_seal = Some(Seal::from_rustls(keys, None));
                *early = true;
            }
        },
    }
}

/// Puts data on the stream of a level.
fn send_at(ctx: &mut CryptoContexts, level: Level, data: &[u8]) -> (r: Result<(), Error>)
    requires
        level != Level::ZeroRTT,
    ensures
        if data@.len() == 0 || !space_of(old(ctx)@, level).finished {
            r is Ok && final(ctx)@ == with_data_at(old(ctx)@, level, data@)
        } else {
            r == Err::<(), Error>(Error::TlsFail) && final(ctx)@ == old(ctx)@
        },
{
    if data.len() == 0 {
        proof {
            assert(with_data_at(ctx@, level, data@).initial.pending =~= ctx@.initial.pending);
            assert(with_data_at(ctx@, level, data@).handshake.pending =~= ctx@.handshake.pending);
            assert(with_data_at(ctx@, level, data@).application.pending
                =~= ctx@.application.pending);
        }
        return Ok(());
    }
    let written: Result<usize, Error> = match level {
        Level::Initial => ctx.initial.crypto_stream.send.write(data, false),
        Level::Handshake => ctx.handshake.crypto_stream.send.write(data, false),
        _ => ctx.application.crypto_stream.send.write(data, false),
    };
    match written {
        Ok(_) => Ok(()),
        Err(_) => Err(Error::TlsFail),
    }
}

/// Lets a key change take effect on the keys.
fn install_keys(ctx: &mut CryptoContexts, change: KeyChange)
    ensures
        final(ctx)@ == with_change(old(ctx)@, Some(change)),
{
    match change {
        KeyChange::Handshake { local, remote } => {
            ctx.handshake.crypto_open = Some(Open::from_rustls(remote, None));
            ctx.handshake.crypto_seal = Some(Seal::from_rustls(local, None));
        },
        KeyChange::OneRtt { local, remote, next } => {
            ctx.application.crypto_open = Some(
                Open::from_rustls(remote, Some(copy_secrets(&next))),
            );
            ctx.application.crypto_seal = Some(Seal::from_rustls(local, Some(next)));
        },
    }
}

/// What a flight leaves behind when its data cannot be put on its stream.
pub open spec fn without_data(
    level: Level,
    is_server: bool,
    flight: FlightView,
) -> FlightView {
    FlightView {
        data: Seq::empty(),
        change: if sending_level(level, is_server, flight.change) != level {
            flight.change
        } else {
            None
        },
        zero_rtt: flight.zero_rtt,
    }
}

/// Applies a flight. Gives whether another may follow, which it may after a key
/// change.
///
/// When the data cannot be put on its stream, the keys that it would have been
/// sent under are in place all the same.
pub fn apply_flight(
    ctx: &mut CryptoContexts,
    level: &mut Level,
    early: &mut bool,
    is_server: bool,
    flight: Flight,
) -> (r: Result<bool, Error>)
    requires
        *old(level) != Level::ZeroRTT,
    ensures
        ({
            let before = standing(*old(level), *old(early), old(ctx)@);
            let after = standing(*final(level), *final(early), final(ctx)@);
            if can_send(before, is_server, flight@) {
                &&& r == Ok::<bool, Error>(flight.change is Some)
                &&& after == after_flight(before, is_server, flight@)
            } else {
                &&& r == Err::<bool, Error>(Error::TlsFail)
                &&& after == after_flight(
                    before,
                    is_server,
                    without_data(*old(level), is_server, flight@),
                )
            }
        }),
        *final(level) != Level::ZeroRTT,
{
    let Flight { data, change, zero_rtt } = flight;
    install_zero_rtt_keys(ctx, early, is_server, zero_rtt);
    let first: bool = match &change {
        Some(KeyChange::Handshake { .. }) => *level == Level::Initial && !is_server,
        _ => false,
    };
    let mut left: Option<KeyChange> = change;
    if first {
        if let Some(change) = left {
            install_keys(ctx, change);
        }
        left = None;
        *level = Level::Handshake;
    }
    let ghost keyed: SpacesView = ctx@;
    match send_at(ctx, *level, &data) {
        Err(e) => {
            proof {
                let none = Seq::<u8>::empty();
                assert(keyed.handshake.pending + none =~= keyed.handshake.pending);
                assert(keyed.initial.pending + none =~= keyed.initial.pending);
                assert(keyed.application.pending + none =~= keyed.application.pending);
            }
            return Err(e);
        },
        Ok(_) => {},
    }
    match left {
        None => Ok(first),
        Some(change) => {
            let one_rtt: bool = match &change {
                KeyChange::Handshake { .. } => false,
                KeyChange::OneRtt { .. } => true,
            };
            install_keys(ctx, change);
            if one_rtt {
                *level = Level::OneRTT;
                if !is_server {
                    *early = false;
                }
            } else {
                *level = Level::Handshake;
            }
            Ok(true)
        },
    }
}

/// Keys that are in place may be replaced by later flights, but are never dropped.
pub proof fn law_keys_are_never_dropped(s: FlightState, is_server: bool, flights: Seq<FlightView>)
    ensures
        ({
            let t = after_flights(s, is_server, flights);
            &&& s.spaces.handshake.open is Some ==> t.spaces.handshake.open is Some
            &&& s.spaces.handshake.seal is Some ==> t.spaces.handshake.seal is Some
            &&& s.spaces.application.open is Some ==> t.spaces.application.open is Some
            &&& s.spaces.application.seal is Some ==> t.spaces.application.seal is Some
            &&& s.spaces.application.zero_rtt_open is Some ==> t.spaces.application.zero_rtt_open
                == s.spaces.application.zero_rtt_open
            &&& t.spaces.initial.open == s.spaces.initial.open
            &&& t.spaces.initial.seal == s.spaces.initial.seal
        }),
    decreases flights.len(),
{
    if flights.len() > 0 {
        law_keys_are_never_dropped(s, is_server, flights.drop_last());
    }
}

/// Handshake data is put on one stream, behind what waits there, and on no other.
pub proof fn law_data_goes_to_one_stream(s: FlightState, is_server: bool, flight: FlightView)
    requires
        s.level != Level::ZeroRTT,
    ensures
        ({
            let t = after_flight(s, is_server, flight);
            let level = sending_level(s.level, is_server, flight.change);
            &&& space_of(t.spaces, level).pending == space_of(s.spaces, level).pending
                + flight.data
            &&& level != Level::Initial ==> t.spaces.initial.pending == s.spaces.initial.pending
            &&& level != Level::Handshake ==> t.spaces.handshake.pending
                == s.spaces.handshake.pending
            &&& level != Level::OneRTT ==> t.spaces.application.pending
                == s.spaces.application.pending
        }),
{
}

/// A client is out of early data once it has keys for application data, and a
/// server that got keys for early data is in it.
pub proof fn law_early_data_state(s: FlightState, is_server: bool, flight: FlightView)
    ensures
        ends_early_data(is_server, flight.change) ==> !after_flight(s, is_server, flight).early,
        is_server && flight.zero_rtt is Some ==> after_flight(s, is_server, flight).early
            && after_flight(s, is_server, flight).spaces.application.zero_rtt_open is Some,
{
}

/// After a key change an endpoint seals with its own keys and opens with the peer's.
/// Handshake keys go to the handshake space, keys for application data to the
/// application space, each with the secrets of the keys after them where there are any.
/// All other keys for opening, and the keys of the first space, stay.
pub proof fn law_own_keys_seal_and_peer_keys_open(
    s: FlightState,
    is_server: bool,
    flight: FlightView,
)
    ensures
        ({
            let t = after_flight(s, is_server, flight);
            &&& t.spaces.initial.seal == s.spaces.initial.seal
            &&& t.spaces.initial.open == s.spaces.initial.open
            &&& match flight.change {
                Some(KeyChange::Handshake { local, remote }) => {
                    &&& t.spaces.handshake.seal == Some(Seal { keys: local, next: None })
                    &&& t.spaces.handshake.open == Some(Open { keys: remote, next: None })
                    &&& t.spaces.application.open == s.spaces.application.open
                },
                Some(KeyChange::OneRtt { local, remote, next }) => {
                    &&& t.spaces.application.seal == Some(Seal { keys: local, next: Some(next) })
                    &&& t.spaces.application.open == Some(
                        Open { keys: remote, next: Some(next) },
                    )
                    &&& t.spaces.handshake.seal == s.spaces.handshake.seal
                    &&& t.spaces.handshake.open == s.spaces.handshake.open
                },
                None => {
                    &&& t.spaces.handshake.seal == s.spaces.handshake.seal
                    &&& t.spaces.handshake.open == s.spaces.handshake.open
                    &&& t.spaces.application.open == s.spaces.application.open
                },
            }
        }),
{
}

/// Keys for early data seal what a client sends until it has other keys for application
/// data, and open what a server gets from the first ones on. They never serve the other
/// side, and never replace keys that are there.
pub proof fn law_early_keys_serve_one_side(s: FlightState, is_server: bool, flight: FlightView)
    ensures
        ({
            let before = s.spaces.application;
            let after = after_flight(s, is_server, flight).spaces.application;
            let early = flight.zero_rtt;
            &&& is_server && before.zero_rtt_open is None ==> match early {
                Some(keys) => after.zero_rtt_open == Some(Open { keys, next: None }),
                None => after.zero_rtt_open is None,
            }
            &&& !is_server || before.zero_rtt_open is Some ==> after.zero_rtt_open
                == before.zero_rtt_open
            &&& !(flight.change matches Some(KeyChange::OneRtt { .. })) ==> {
                &&& is_server || before.seal is Some ==> after.seal == before.seal
                &&& !is_server && before.seal is None ==> match early {
                    Some(keys) => after.seal == Some(Seal { keys, next: None }),
                    None => after.seal is None,
                }
            }
        }),
{
}

/// The level goes up with the keys that come: to the handshake with handshake keys, to
/// application data with keys for it. Without new keys it stays.
pub proof fn law_level_follows_keys(s: FlightState, is_server: bool, flight: FlightView)
    ensures
        after_flight(s, is_server, flight).level == match flight.change {
            Some(KeyChange::Handshake { .. }) => Level::Handshake,
            Some(KeyChange::OneRtt { .. }) => Level::OneRTT,
            None => s.level,
        },
{
}

/// Data of a level goes behind what waits on the stream of that level, and nowhere else.
/// The one exception is a client at the first level whose flight brings handshake keys:
/// its data goes to the handshake stream. No stream is ended by it.
pub proof fn law_data_goes_to_the_stream_of_its_level(
    s: FlightState,
    is_server: bool,
    flight: FlightView,
)
    requires
        s.level != Level::ZeroRTT,
    ensures
        ({
            let a = s.spaces;
            let b = after_flight(s, is_server, flight).spaces;
            let ahead = !is_server && flight.change matches Some(KeyChange::Handshake { .. });
            let none = Seq::<u8>::empty();
            let first = if s.level == Level::Initial && !ahead {
                flight.data
            } else {
                none
            };
            let second = if s.level == Level::Handshake || (s.level == Level::Initial && ahead) {
                flight.data
            } else {
                none
            };
            let third = if s.level == Level::OneRTT {
                flight.data
            } else {
                none
            };
            &&& b.initial.pending =~= a.initial.pending + first
            &&& b.handshake.pending =~= a.handshake.pending + second
            &&& b.application.pending =~= a.application.pending + third
            &&& b.initial.finished == a.initial.finished
            &&& b.handshake.finished == a.handshake.finished
            &&& b.application.finished == a.application.finished
        }),
{
}

/// A flight can be sent unless it has data and the stream that the data goes to has
/// ended.
pub proof fn law_only_ended_streams_refuse(s: FlightState, is_server: bool, flight: FlightView)
    requires
        s.level != Level::ZeroRTT,
    ensures
        flight.data.len() == 0 ==> can_send(s, is_server, flight),
        flight.data.len() > 0 && s.level == Level::OneRTT ==> can_send(s, is_server, flight)
            == !s.spaces.application.finished,
        flight.data.len() > 0 && s.level == Level::Handshake ==> can_send(s, is_server, flight)
            == !s.spaces.handshake.finished,
        flight.data.len() > 0 && s.level == Level::Initial ==> can_send(s, is_server, flight)
            == if !is_server && flight.change matches Some(KeyChange::Handshake { .. }) {
            !s.spaces.handshake.finished
        } else {
            !s.spaces.initial.finished
        },
{
}

/// A flight that cannot be sent leaves all streams as they are. Its keys for early data
/// are taken, and of its other keys only those that its data was to be sent under: the
/// handshake keys of a client at the first level.
pub proof fn law_refused_flight_leaves_streams(
    s: FlightState,
    is_server: bool,
    flights: Seq<FlightView>,
)
    requires
        flights.len() == 1,
        s.level != Level::ZeroRTT,
        last_refused(s, is_server, flights),
    ensures
        ({
            let flight = flights[0];
            let t = after_refused(s, is_server, flights);
            &&& t.spaces.initial == s.spaces.initial
            &&& t.spaces.handshake.pending == s.spaces.handshake.pending
            &&& t.spaces.application.pending == s.spaces.application.pending
            &&& match flight.change {
                Some(KeyChange::Handshake { local, remote }) => if !is_server && s.level
                    == Level::Initial {
                    &&& t.level == Level::Handshake
                    &&& t.spaces.handshake.seal == Some(Seal { keys: local, next: None })
                    &&& t.spaces.handshake.open == Some(Open { keys: remote, next: None })
                } else {
                    t.level == s.level && t.spaces.handshake == s.spaces.handshake
                },
                _ => {
                    &&& t.level == s.level
                    &&& t.spaces.handshake == s.spaces.handshake
                    &&& t.spaces.application.open == s.spaces.application.open
                },
            }
        }),
{
    let none = Seq::<u8>::empty();
    assert(flights.drop_last() =~= Seq::<FlightView>::empty());
    assert(s.spaces.initial.pending + none =~= s.spaces.initial.pending);
    assert(s.spaces.handshake.pending + none =~= s.spaces.handshake.pending);
    assert(s.spaces.application.pending + none =~= s.spaces.application.pending);
}

/// A client is in early data from the first keys for it on, until its keys for
/// application data come, which end it. A server that got keys for early data stays in
/// it.
pub proof fn law_early_data_lasts_until_application_keys(
    s: FlightState,
    is_server: bool,
    flight: FlightView,
)
    ensures
        ({
            let t = after_flight(s, is_server, flight);
            if is_server {
                t.early == (s.early || flight.zero_rtt is Some)
            } else {
                match flight.change {
                    Some(KeyChange::OneRtt { .. }) => !t.early,
                    _ => t.early == (s.early || (flight.zero_rtt is Some
                        && s.spaces.application.seal is None)),
                }
            }
        }),
{
}

/// The last handshake keys and the last keys for application data of a round of sending
/// are the ones in place after it.
pub proof fn law_last_keys_of_a_round_stay(
    s: FlightState,
    is_server: bool,
    flights: Seq<FlightView>,
    i: int,
)
    requires
        0 <= i < flights.len(),
    ensures
        ({
            let t = after_flights(s, is_server, flights).spaces;
            match flights[i].change {
                Some(KeyChange::Handshake { local, remote }) => (forall|j: int|
                    i < j < flights.len() ==> !((#[trigger] flights[j]).change matches Some(
                        KeyChange::Handshake { .. },
                    ))) ==> t.handshake.seal == Some(Seal { keys: local, next: None })
                    && t.handshake.open == Some(Open { keys: remote, next: None }),
                Some(KeyChange::OneRtt { local, remote, next }) => (forall|j: int|
                    i < j < flights.len() ==> !((#[trigger] flights[j]).change matches Some(
                        KeyChange::OneRtt { .. },
                    ))) ==> t.application.seal == Some(Seal { keys: local, next: Some(next) })
                    && t.application.open == Some(Open { keys: remote, next: Some(next) }),
                None => true,
            }
        }),
    decreases flights.len(),
{
    let front = flights.drop_last();
    if i < flights.len() - 1 {
        assert(front[i] == flights[i]);
        assert(flights[flights.len() - 1] == flights.last());
        law_last_keys_of_a_round_stay(s, is_server, front, i);
        assert(forall|j: int| i < j < front.len() ==> front[j] == flights[j]);
    }
}

/// A client that got keys for application data in a round of sending is not in early
/// data after the round.
pub proof fn law_round_with_application_keys_ends_early_data(
    s: FlightState,
    flights: Seq<FlightView>,
    i: int,
)
    requires
        0 <= i < flights.len(),
        flights[i].change matches Some(KeyChange::OneRtt { .. }),
    ensures
        !after_flights(s, false, flights).early,
        after_flights(s, false, flights).spaces.application.seal is Some,
    decreases flights.len(),
{
    if i < flights.len() - 1 {
        assert(flights.drop_last()[i] == flights[i]);
        law_round_with_application_keys_ends_early_data(s, flights.drop_last(), i);
    }
}

/// A client whose level became that of application data in a round of sending is not in
/// early data.
pub proof fn law_client_at_application_level_left_early_data(
    s: FlightState,
    flights: Seq<FlightView>,
)
    requires
        s.level != Level::OneRTT,
        after_flights(s, false, flights).level == Level::OneRTT,
    ensures
        !after_flights(s, false, flights).early,
    decreases flights.len(),
{
    if flights.len() > 0 {
        let front = flights.drop_last();
        match flights.last().change {
            Some(KeyChange::OneRtt { .. }) => {},
            _ => {
                law_client_at_application_level_left_early_data(s, front);
                lemma_application_level_has_keys(s, front);
            },
        }
    }
}

/// A client whose level became that of application data has keys to seal it with.
proof fn lemma_application_level_has_keys(s: FlightState, flights: Seq<FlightView>)
    requires
        s.level != Level::OneRTT,
        after_flights(s, false, flights).level == Level::OneRTT,
    ensures
        after_flights(s, false, flights).spaces.application.seal is Some,
    decreases flights.len(),
{
    if flights.len() > 0 && !(flights.last().change matches Some(KeyChange::OneRtt { .. })) {
        lemma_application_level_has_keys(s, flights.drop_last());
    }
}

/// Flights are sent one after the other, each from where the one before it left off. All
/// of them are sent when each can be, and a refused one is the first that cannot.
pub proof fn law_flights_follow_one_another(
    s: FlightState,
    is_server: bool,
    flights: Seq<FlightView>,
    flight: FlightView,
)
    ensures
        ({
            let t = after_flights(s, is_server, flights);
            let more = flights.push(flight);
            &&& after_flights(s, is_server, Seq::empty()) == s
            &&& after_flights(s, is_server, more) == after_flight(t, is_server, flight)
            &&& all_sent(s, is_server, Seq::empty())
            &&& all_sent(s, is_server, more) <==> all_sent(s, is_server, flights) && can_send(
                t,
                is_server,
                flight,
            )
            &&& last_refused(s, is_server, more) <==> all_sent(s, is_server, flights) && !can_send(
                t,
                is_server,
                flight,
            )
            &&& after_refused(s, is_server, more) == after_refused(t, is_server, seq![flight])
        }),
{
    let more = flights.push(flight);
    assert(more.drop_last() =~= flights);
    assert(more.last() == flight);
    assert(seq![flight].drop_last() =~= Seq::<FlightView>::empty());
    reveal_with_fuel(after_flights, 2);
}

/// A flight shows its data and its keys, and a state its level, whether there is early
/// data, and its spaces.
pub proof fn law_flight_shows_its_parts(
    flight: Flight,
    level: Level,
    early: bool,
    spaces: SpacesView,
)
    ensures
        flight@.data == flight.data@,
        flight@.change == flight.change,
        flight@.zero_rtt == flight.zero_rtt,
        standing(level, early, spaces).level == level,
        standing(level, early, spaces).early == early,
        standing(level, early, spaces).spaces == spaces,
{
}

} // verus!

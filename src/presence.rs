use vstd::prelude::*;

verus! {

/// Whether the channel holds an open connection.
#[derive(Clone, Copy, Debug, PartialEq, Eq, Structural)]
pub enum Link {
    Disconnected,
    Connected,
}

/// How far a publish has come.
#[derive(Clone, Copy, Debug, PartialEq, Eq, Structural)]
pub enum Stage {
    /// No publish in progress.
    Idle,
    /// Sending over the connection held.
    SendingExisting,
    /// Reconnecting the connection held, after a failed send.
    Reconnecting,
    /// Creating a new client, the old connection (if any) dropped.
    Creating,
    /// Connecting the new client.
    Connecting,
    /// Sending over the new client.
    SendingNew,
}

/// What the caller is to do next for the publish in progress, and report
/// back through `on_outcome`.
pub enum PresenceAction {
    /// Send the payload over the connection held.
    SendExisting,
    /// Reconnect the connection held.
    Reconnect,
    /// Drop the connection held, if any, and create a new client.
    CreateClient,
    /// Connect the new client.
    Connect,
    /// Send the payload over the new client; on success it becomes the
    /// connection held.
    SendNew,
    /// The publish is over, with this result.
    Finished(Result<(), String>),
}

/// What a publish sends: a state, a detail line and the time (seconds since
/// the Unix epoch) it started.
pub struct ActivityPayload {
    pub state: String,
    pub details: String,
    pub start: i64,
}

/// The presence client: the connection it holds (kept by the caller, who
/// follows `link`) and the publish in progress.
pub struct PresenceChannel {
    link: Link,
    stage: Stage,
    payload: ActivityPayload,
}

/// A channel never used: no connection, no publish in progress.
pub open spec fn fresh_state() -> (Link, Stage) {
    (Link::Disconnected, Stage::Idle)
}

/// The stage a publish starts in: a held connection is tried first.
pub open spec fn start_stage(link: Link) -> Stage {
    if link == Link::Connected {
        Stage::SendingExisting
    } else {
        Stage::Creating
    }
}

/// How a step of a publish moves the channel, given whether the step
/// succeeded.
pub open spec fn next(link: Link, stage: Stage, ok: bool) -> (Link, Stage) {
    match stage {
        Stage::Idle => (link, Stage::Idle),
        Stage::SendingExisting => if ok {
            (Link::Connected, Stage::Idle)
        } else {
            (Link::Connected, Stage::Reconnecting)
        },
        Stage::Reconnecting => if ok {
            (Link::Connected, Stage::Idle)
        } else {
            (Link::Disconnected, Stage::Creating)
        },
        Stage::Creating => if ok {
            (Link::Disconnected, Stage::Connecting)
        } else {
            (Link::Disconnected, Stage::Idle)
        },
        Stage::Connecting => if ok {
            (Link::Disconnected, Stage::SendingNew)
        } else {
            (Link::Disconnected, Stage::Idle)
        },
        Stage::SendingNew => if ok {
            (Link::Connected, Stage::Idle)
        } else {
            (Link::Disconnected, Stage::Idle)
        },
    }
}

/// How a publish ends when the step in `stage` ends it with `outcome`. A
/// successful reconnect ends it too, unsent: the next publish uses the
/// connection.
pub open spec fn finish_result(stage: Stage, outcome: Result<(), String>) -> Result<(), Seq<char>> {
    match outcome {
        Ok(()) => if stage == Stage::Reconnecting {
            Err("Failed to set Discord activity"@)
        } else {
            Ok(())
        },
        Err(e) => if stage == Stage::Creating {
            Err("Failed to create Discord client: "@ + e@)
        } else if stage == Stage::Connecting {
            Err("Failed to connect to Discord: "@ + e@)
        } else {
            Err("Failed to set activity: "@ + e@)
        },
    }
}

/// `a` is what the caller is asked to do in a publish that stands at `stage`.
pub open spec fn asks(a: PresenceAction, stage: Stage) -> bool {
    match stage {
        Stage::Idle => a is Finished,
        Stage::SendingExisting => a is SendExisting,
        Stage::Reconnecting => a is Reconnect,
        Stage::Creating => a is CreateClient,
        Stage::Connecting => a is Connect,
        Stage::SendingNew => a is SendNew,
    }
}

/// The number of reconnects a publish at `stage` makes, from the outcomes
/// its steps have, in order.
pub open spec fn reconnects(link: Link, stage: Stage, outcomes: Seq<bool>) -> nat
    decreases outcomes.len(),
{
    if stage == Stage::Idle || outcomes.len() == 0 {
        0
    } else {
        let (l, s) = next(link, stage, outcomes[0]);
        (if s == Stage::Reconnecting {
            1nat
        } else {
            0nat
        }) + reconnects(l, s, outcomes.drop_first())
    }
}

/// Seconds since the Unix epoch as a payload's start time, held at
/// `i64::MAX`.
pub open spec fn timestamp_of(secs: u64) -> i64 {
    if secs > i64::MAX as u64 {
        i64::MAX
    } else {
        secs as i64
    }
}

/// Turns seconds since the Unix epoch into a start time.
pub fn get_current_timestamp(since_epoch_secs: u64) -> (r: i64)
    ensures
        r == timestamp_of(since_epoch_secs),
{
    if since_epoch_secs > 9223372036854775807u64 {
        9223372036854775807i64
    } else {
        since_epoch_secs as i64
    }
}

/// The payload that shows `state` and `details`, started `now_secs` after the
/// Unix epoch.
pub fn create_activity_payload(state: &str, details: &str, now_secs: u64) -> (r: ActivityPayload)
    ensures
        r.state@ == state@,
        r.details@ == details@,
        r.start == timestamp_of(now_secs),
{
    ActivityPayload {
        state: String::from_str(state),
        details: String::from_str(details),
        start: get_current_timestamp(now_secs),
    }
}

fn action_for(stage: Stage) -> (r: PresenceAction)
    requires
        stage != Stage::Idle,
    ensures
        asks(r, stage),
{
    match stage {
        Stage::SendingExisting => PresenceAction::SendExisting,
        Stage::Reconnecting => PresenceAction::Reconnect,
        Stage::Creating => PresenceAction::CreateClient,
        Stage::Connecting => PresenceAction::Connect,
        _ => PresenceAction::SendNew,
    }
}

impl PresenceChannel {
    pub closed spec fn link(&self) -> Link {
        self.link
    }

    pub closed spec fn stage(&self) -> Stage {
        self.stage
    }

    pub closed spec fn payload_spec(&self) -> ActivityPayload {
        self.payload
    }

    /// A channel with no connection and no publish in progress.
    pub fn new() -> (r: Self)
        ensures
            (r.link(), r.stage()) == fresh_state(),
    {
        PresenceChannel {
            link: Link::Disconnected,
            stage: Stage::Idle,
            payload: ActivityPayload { state: String::new(), details: String::new(), start: 0 },
        }
    }

    pub fn is_connected(&self) -> (r: bool)
        ensures
            r == (self.link() == Link::Connected),
    {
        self.link == Link::Connected
    }

    /// Whether a publish is in progress.
    pub fn is_publishing(&self) -> (r: bool)
        ensures
            r == (self.stage() != Stage::Idle),
    {
        self.stage != Stage::Idle
    }

    /// The payload of the latest publish.
    pub fn payload(&self) -> (r: &ActivityPayload)
        ensures
            *r == self.payload_spec(),
    {
        &self.payload
    }

    /// Starts publishing `payload`, abandoning any publish in progress: over
    /// the connection held if there is one, else over a new client.
    pub fn publish(&mut self, payload: ActivityPayload) -> (r: PresenceAction)
        ensures
            final(self).link() == old(self).link(),
            final(self).stage() == start_stage(old(self).link()),
            final(self).payload_spec() == payload,
            asks(r, final(self).stage()),
    {
        self.payload = payload;
        self.stage = if self.link == Link::Connected {
            Stage::SendingExisting
        } else {
            Stage::Creating
        };
        action_for(self.stage)
    }

    /// Takes the outcome of the step asked for and says what comes next.
    pub fn on_outcome(&mut self, outcome: Result<(), String>) -> (r: PresenceAction)
        requires
            old(self).stage() != Stage::Idle,
        ensures
            (final(self).link(), final(self).stage()) == next(
                old(self).link(),
                old(self).stage(),
                outcome is Ok,
            ),
            final(self).payload_spec() == old(self).payload_spec(),
            asks(r, final(self).stage()),
            r matches PresenceAction::Finished(res) ==> match res {
                Ok(()) => finish_result(old(self).stage(), outcome) == Ok::<(), Seq<char>>(()),
                Err(m) => finish_result(old(self).stage(), outcome) == Err::<(), Seq<char>>(m@),
            },
    {
        let ok = outcome.is_ok();
        match self.stage {
            Stage::SendingExisting => {
                self.link = Link::Connected;
                if ok {
                    self.stage = Stage::Idle;
                    return PresenceAction::Finished(Ok(()));
                }
                self.stage = Stage::Reconnecting;
            },
            Stage::Reconnecting => {
                if ok {
                    self.link = Link::Connected;
                    self.stage = Stage::Idle;
                    return PresenceAction::Finished(
                        Err(String::from_str("Failed to set Discord activity")),
                    );
                }
                self.link = Link::Disconnected;
                self.stage = Stage::Creating;
            },
            Stage::Creating => {
                self.link = Link::Disconnected;
                match outcome {
                    Ok(()) => {
                        self.stage = Stage::Connecting;
                    },
                    Err(e) => {
                        self.stage = Stage::Idle;
                        return PresenceAction::Finished(
                            Err(
                                String::from_str("Failed to create Discord client: ").concat(
                                    e.as_str(),
                                ),
                            ),
                        );
                    },
                }
            },
            Stage::Connecting => {
                self.link = Link::Disconnected;
                match outcome {
                    Ok(()) => {
                        self.stage = Stage::SendingNew;
                    },
                    Err(e) => {
                        self.stage = Stage::Idle;
                        return PresenceAction::Finished(
                            Err(
                                String::from_str("Failed to connect to Discord: ").concat(
                                    e.as_str(),
                                ),
                            ),
                        );
                    },
                }
            },
            _ => {
                self.stage = Stage::Idle;
                self.link = Link::Disconnected;
                match outcome {
                    Ok(()) => {
                        self.link = Link::Connected;
                        return PresenceAction::Finished(Ok(()));
                    },
                    Err(e) => {
                        return PresenceAction::Finished(
                            Err(String::from_str("Failed to set activity: ").concat(e.as_str())),
                        );
                    },
                }
            },
        }
        action_for(self.stage)
    }

    /// Closes the channel: the connection held, if any, is to be dropped, and
    /// the channel is as new. Says whether there was a connection.
    pub fn shutdown(&mut self) -> (r: bool)
        ensures
            r == (old(self).link() == Link::Connected),
            (final(self).link(), final(self).stage()) == fresh_state(),
    {
        let had = self.link == Link::Connected;
        self.link = Link::Disconnected;
        self.stage = Stage::Idle;
        had
    }
}

/// Starts publishing the launcher's own state.
pub fn init_discord_rpc(channel: &mut PresenceChannel, now_secs: u64) -> (r: PresenceAction)
    ensures
        final(channel).payload_spec().state@ == "In Launcher"@,
        final(channel).payload_spec().details@ == "Browsing servers"@,
        final(channel).payload_spec().start == timestamp_of(now_secs),
        final(channel).link() == old(channel).link(),
        final(channel).stage() == start_stage(old(channel).link()),
        asks(r, final(channel).stage()),
{
    set_launcher_activity(channel, now_secs)
}

/// Starts publishing that the user browses servers in the launcher.
pub fn set_launcher_activity(channel: &mut PresenceChannel, now_secs: u64) -> (r: PresenceAction)
    ensures
        final(channel).payload_spec().state@ == "In Launcher"@,
        final(channel).payload_spec().details@ == "Browsing servers"@,
        final(channel).payload_spec().start == timestamp_of(now_secs),
        final(channel).link() == old(channel).link(),
        final(channel).stage() == start_stage(old(channel).link()),
        asks(r, final(channel).stage()),
{
    channel.publish(create_activity_payload("In Launcher", "Browsing servers", now_secs))
}

/// Starts publishing that the user plays on `server_name`.
pub fn set_in_game_activity(channel: &mut PresenceChannel, server_name: &str, now_secs: u64) -> (r:
    PresenceAction)
    ensures
        final(channel).payload_spec().state@ == "In Game"@,
        final(channel).payload_spec().details@ == server_name@,
        final(channel).payload_spec().start == timestamp_of(now_secs),
        final(channel).link() == old(channel).link(),
        final(channel).stage() == start_stage(old(channel).link()),
        asks(r, final(channel).stage()),
{
    channel.publish(create_activity_payload("In Game", server_name, now_secs))
}

/// Closes the presence channel; never fails. The caller drops the connection
/// it held, if any.
pub fn cleanup_discord_rpc(channel: &mut PresenceChannel) -> (r: Result<(), String>)
    ensures
        r is Ok,
        (final(channel).link(), final(channel).stage()) == fresh_state(),
{
    channel.shutdown();
    Ok(())
}

/// A first publish, or one after a failed one dropped the connection, goes
/// create, connect, send; when each step succeeds the channel ends connected
/// and the publish succeeds.
pub proof fn lemma_publish_without_connection_connects()
    ensures
        start_stage(Link::Disconnected) == Stage::Creating,
        next(Link::Disconnected, Stage::Creating, true) == (Link::Disconnected, Stage::Connecting),
        next(Link::Disconnected, Stage::Connecting, true) == (
            Link::Disconnected,
            Stage::SendingNew,
        ),
        next(Link::Disconnected, Stage::SendingNew, true) == (Link::Connected, Stage::Idle),
        finish_result(Stage::SendingNew, Ok(())) == Ok::<(), Seq<char>>(()),
{
}

proof fn lemma_no_reconnect_unless_sending_existing(link: Link, stage: Stage, outcomes: Seq<bool>)
    requires
        stage != Stage::SendingExisting,
    ensures
        reconnects(link, stage, outcomes) == 0,
    decreases outcomes.len(),
{
    if stage == Stage::Idle || outcomes.len() == 0 {
    } else {
        let (l, s) = next(link, stage, outcomes[0]);
        lemma_no_reconnect_unless_sending_existing(l, s, outcomes.drop_first());
    }
}

/// A failed send over a held connection is followed by one reconnect; when
/// that fails the connection is dropped and a new client created. Whatever
/// the outcomes of its steps, a publish reconnects at most once, and exactly
/// once when its first send fails.
pub proof fn lemma_one_reconnect_per_publish(link: Link, outcomes: Seq<bool>)
    ensures
        next(Link::Connected, Stage::SendingExisting, false) == (
            Link::Connected,
            Stage::Reconnecting,
        ),
        next(Link::Connected, Stage::Reconnecting, false) == (Link::Disconnected, Stage::Creating),
        reconnects(link, start_stage(link), outcomes) <= 1,
        link == Link::Connected && outcomes.len() > 0 && !outcomes[0] ==> reconnects(
            link,
            start_stage(link),
            outcomes,
        ) == 1,
{
    let st = start_stage(link);
    if outcomes.len() > 0 {
        let (l, s) = next(link, st, outcomes[0]);
        if s != Stage::SendingExisting {
            lemma_no_reconnect_unless_sending_existing(l, s, outcomes.drop_first());
        }
    }
}

/// A channel that was shut down is, to the next publish, one never used:
/// whatever state it was in, it ends in the state of a new channel, and a
/// publish from there creates a client first and never reconnects.
pub proof fn lemma_shutdown_is_fresh(outcomes: Seq<bool>)
    ensures
        start_stage(fresh_state().0) == Stage::Creating,
        reconnects(fresh_state().0, start_stage(fresh_state().0), outcomes) == 0,
{
    lemma_no_reconnect_unless_sending_existing(Link::Disconnected, Stage::Creating, outcomes);
}

} // verus!

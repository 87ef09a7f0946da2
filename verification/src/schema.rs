//! The records of a recording: vectors, quaternions, IMU samples, actuator
//! configs, states and commands, the header and the frame.
//!
//! A member that may be absent is an `Option`: absent is `None`, and a member
//! that is present with the value zero is `Some` of zero.

use crate::scalar::{Float32, Float64, ONE_BITS};
use vstd::prelude::*;

verus! {

/// A vector of three components.
#[derive(Clone, Copy, Debug, PartialEq, Eq, Structural)]
pub struct Vec3 {
    pub x: Float64,
    pub y: Float64,
    pub z: Float64,
}

/// An orientation as a quaternion. It is stored as given, never normalised.
#[derive(Clone, Copy, Debug, PartialEq, Eq, Structural)]
pub struct ImuQuaternion {
    pub x: Float64,
    pub y: Float64,
    pub z: Float64,
    pub w: Float64,
}

/// One sample of the inertial measurement unit. Each member may be absent on
/// its own.
#[derive(Clone, Copy, Debug, PartialEq, Eq)]
pub struct ImuValues {
    pub accel: Option<Vec3>,
    pub gyro: Option<Vec3>,
    pub mag: Option<Vec3>,
    pub quaternion: Option<ImuQuaternion>,
}

/// What was observed of one actuator in one frame.
#[derive(Clone, Copy, Debug, PartialEq, Eq)]
pub struct ActuatorState {
    pub actuator_id: u32,
    pub online: bool,
    pub position: Option<Float64>,
    pub velocity: Option<Float64>,
    pub torque: Option<Float64>,
    pub temperature: Option<Float64>,
    pub voltage: Option<Float32>,
    pub current: Option<Float32>,
}

/// The setpoint commanded to one actuator in one frame. All three axes are
/// always given.
#[derive(Clone, Copy, Debug, PartialEq, Eq, Structural)]
pub struct ActuatorCommand {
    pub actuator_id: u32,
    pub position: Float32,
    pub velocity: Float32,
    pub effort: Float32,
}

/// The control parameters of one actuator, declared once per recording. They
/// are stored, not enforced.
#[derive(Clone, Debug, PartialEq, Eq)]
pub struct ActuatorConfig {
    pub actuator_id: u32,
    pub kp: Option<Float64>,
    pub kd: Option<Float64>,
    pub ki: Option<Float64>,
    pub max_torque: Option<Float64>,
    pub name: Option<String>,
}

/// What a recording says of itself: its identity, its task, the robot, the
/// time span, and the actuators it knows.
#[derive(Clone, Debug, PartialEq, Eq)]
pub struct KRecHeader {
    pub uuid: String,
    pub task: String,
    pub robot_platform: String,
    pub robot_serial: String,
    pub start_timestamp: u64,
    pub end_timestamp: u64,
    pub actuator_configs: Vec<ActuatorConfig>,
}

/// One capture: when it was taken, the state of each actuator, and, where
/// there are any, the command and the IMU sample.
#[derive(Clone, Debug, PartialEq, Eq)]
pub struct KRecFrame {
    pub video_timestamp: u64,
    pub frame_number: u64,
    pub inference_step: u64,
    pub actuator_states: Vec<ActuatorState>,
    pub actuator_commands: Option<ActuatorCommand>,
    pub imu_values: Option<ImuValues>,
}

/// An actuator config as a mathematical value.
pub struct ActuatorConfigView {
    pub actuator_id: u32,
    pub kp: Option<Float64>,
    pub kd: Option<Float64>,
    pub ki: Option<Float64>,
    pub max_torque: Option<Float64>,
    pub name: Option<Seq<char>>,
}

/// A header as a mathematical value.
pub struct KRecHeaderView {
    pub uuid: Seq<char>,
    pub task: Seq<char>,
    pub robot_platform: Seq<char>,
    pub robot_serial: Seq<char>,
    pub start_timestamp: u64,
    pub end_timestamp: u64,
    pub actuator_configs: Seq<ActuatorConfigView>,
}

/// A frame as a mathematical value.
pub struct KRecFrameView {
    pub video_timestamp: u64,
    pub frame_number: u64,
    pub inference_step: u64,
    pub actuator_states: Seq<ActuatorState>,
    pub actuator_commands: Option<ActuatorCommand>,
    pub imu_values: Option<ImuValues>,
}

/// How many values a list had, and how many its record takes.
#[derive(Clone, Copy, Debug, PartialEq, Eq, Structural)]
pub struct CountError {
    pub expected: usize,
    pub found: usize,
}

/// Accepts a list of `found` values for a record that takes `expected`.
pub fn expect_count(found: usize, expected: usize) -> (r: Result<(), CountError>)
    ensures
        found == expected ==> r is Ok,
        found != expected ==> r == Err::<(), CountError>(CountError { expected, found }),
{
    if found == expected {
        Ok(())
    } else {
        Err(CountError { expected, found })
    }
}

/// The given number, or zero where none is given.
pub open spec fn f64_or_zero(value: Option<Float64>) -> Float64 {
    match value {
        Some(v) => v,
        None => Float64::zero(),
    }
}

/// The given number, or zero where none is given.
pub open spec fn f32_or_zero(value: Option<Float32>) -> Float32 {
    match value {
        Some(v) => v,
        None => Float32::zero(),
    }
}

/// The given number, or zero where none is given.
pub open spec fn u64_or_zero(value: Option<u64>) -> u64 {
    match value {
        Some(v) => v,
        None => 0,
    }
}

fn real_or_zero(value: Option<Float64>) -> (r: Float64)
    ensures
        r == f64_or_zero(value),
{
    match value {
        Some(v) => v,
        None => Float64 { bits: 0 },
    }
}

fn single_or_zero(value: Option<Float32>) -> (r: Float32)
    ensures
        r == f32_or_zero(value),
{
    match value {
        Some(v) => v,
        None => Float32 { bits: 0 },
    }
}

fn count_or_zero(value: Option<u64>) -> (r: u64)
    ensures
        r == u64_or_zero(value),
{
    match value {
        Some(v) => v,
        None => 0,
    }
}

impl Vec3 {
    /// The zero vector.
    pub open spec fn zero() -> Vec3 {
        Vec3 { x: Float64::zero(), y: Float64::zero(), z: Float64::zero() }
    }

    /// The vector with the given components; a component that is not given
    /// is zero.
    pub fn new(x: Option<Float64>, y: Option<Float64>, z: Option<Float64>) -> (v: Vec3)
        ensures
            v == (Vec3 { x: f64_or_zero(x), y: f64_or_zero(y), z: f64_or_zero(z) }),
    {
        Vec3 { x: real_or_zero(x), y: real_or_zero(y), z: real_or_zero(z) }
    }

    /// The vector whose components are the three values of the list, in the
    /// order x, y, z.
    pub fn from_values(values: &[Float64]) -> (r: Result<Vec3, CountError>)
        ensures
            values@.len() == 3 ==> r == Ok::<Vec3, CountError>(
                Vec3 { x: values@[0], y: values@[1], z: values@[2] },
            ),
            values@.len() != 3 ==> r == Err::<Vec3, CountError>(
                CountError { expected: 3, found: values@.len() as usize },
            ),
    {
        match expect_count(values.len(), 3) {
            Ok(()) => Ok(Vec3 { x: values[0], y: values[1], z: values[2] }),
            Err(e) => Err(e),
        }
    }
}

impl Default for Vec3 {
    fn default() -> (v: Vec3)
        ensures
            v == Vec3::zero(),
    {
        Vec3 { x: Float64 { bits: 0 }, y: Float64 { bits: 0 }, z: Float64 { bits: 0 } }
    }
}

impl ImuQuaternion {
    /// The rotation that turns nothing: (0, 0, 0, 1).
    pub open spec fn identity() -> ImuQuaternion {
        ImuQuaternion {
            x: Float64::zero(),
            y: Float64::zero(),
            z: Float64::zero(),
            w: Float64::one(),
        }
    }

    /// The quaternion with the given components; of those that are not
    /// given, x, y and z are zero and w is one.
    pub fn new(
        x: Option<Float64>,
        y: Option<Float64>,
        z: Option<Float64>,
        w: Option<Float64>,
    ) -> (q: ImuQuaternion)
        ensures
            q == (ImuQuaternion {
                x: f64_or_zero(x),
                y: f64_or_zero(y),
                z: f64_or_zero(z),
                w: match w {
                    Some(v) => v,
                    None => Float64::one(),
                },
            }),
    {
        ImuQuaternion {
            x: real_or_zero(x),
            y: real_or_zero(y),
            z: real_or_zero(z),
            w: match w {
                Some(v) => v,
                None => Float64 { bits: ONE_BITS },
            },
        }
    }

    /// The quaternion whose components are the four values of the list, in
    /// the order x, y, z, w.
    pub fn from_values(values: &[Float64]) -> (r: Result<ImuQuaternion, CountError>)
        ensures
            values@.len() == 4 ==> r == Ok::<ImuQuaternion, CountError>(
                ImuQuaternion { x: values@[0], y: values@[1], z: values@[2], w: values@[3] },
            ),
            values@.len() != 4 ==> r == Err::<ImuQuaternion, CountError>(
                CountError { expected: 4, found: values@.len() as usize },
            ),
    {
        match expect_count(values.len(), 4) {
            Ok(()) => Ok(ImuQuaternion { x: values[0], y: values[1], z: values[2], w: values[3] }),
            Err(e) => Err(e),
        }
    }
}

impl Default for ImuQuaternion {
    fn default() -> (q: ImuQuaternion)
        ensures
            q == ImuQuaternion::identity(),
    {
        ImuQuaternion {
            x: Float64 { bits: 0 },
            y: Float64 { bits: 0 },
            z: Float64 { bits: 0 },
            w: Float64 { bits: ONE_BITS },
        }
    }
}

impl ImuValues {
    /// The sample in which every member is absent.
    pub open spec fn empty() -> ImuValues {
        ImuValues { accel: None, gyro: None, mag: None, quaternion: None }
    }

    /// The sample with the given members; a member that is not given is
    /// absent.
    pub fn new(
        accel: Option<Vec3>,
        gyro: Option<Vec3>,
        mag: Option<Vec3>,
        quaternion: Option<ImuQuaternion>,
    ) -> (imu: ImuValues)
        ensures
            imu == (ImuValues { accel, gyro, mag, quaternion }),
    {
        ImuValues { accel, gyro, mag, quaternion }
    }
}

impl Default for ImuValues {
    fn default() -> (imu: ImuValues)
        ensures
            imu == ImuValues::empty(),
    {
        ImuValues { accel: None, gyro: None, mag: None, quaternion: None }
    }
}

impl ActuatorState {
    /// The state of actuator 0 in which it is offline and nothing was
    /// measured.
    pub open spec fn empty() -> ActuatorState {
        ActuatorState {
            actuator_id: 0,
            online: false,
            position: None,
            velocity: None,
            torque: None,
            temperature: None,
            voltage: None,
            current: None,
        }
    }

    /// The state of the given actuator with the given measurements; the
    /// actuator is offline where `online` is not given, and a measurement
    /// that is not given is absent.
    pub fn new(
        actuator_id: u32,
        online: Option<bool>,
        position: Option<Float64>,
        velocity: Option<Float64>,
        torque: Option<Float64>,
        temperature: Option<Float64>,
        voltage: Option<Float32>,
        current: Option<Float32>,
    ) -> (state: ActuatorState)
        ensures
            state == (ActuatorState {
                actuator_id,
                online: online == Some(true),
                position,
                velocity,
                torque,
                temperature,
                voltage,
                current,
            }),
    {
        ActuatorState {
            actuator_id,
            online: match online {
                Some(flag) => flag,
                None => false,
            },
            position,
            velocity,
            torque,
            temperature,
            voltage,
            current,
        }
    }
}

impl Default for ActuatorState {
    fn default() -> (state: ActuatorState)
        ensures
            state == ActuatorState::empty(),
    {
        ActuatorState {
            actuator_id: 0,
            online: false,
            position: None,
            velocity: None,
            torque: None,
            temperature: None,
            voltage: None,
            current: None,
        }
    }
}

impl ActuatorCommand {
    /// The command that asks actuator 0 for zero on every axis.
    pub open spec fn zero() -> ActuatorCommand {
        ActuatorCommand {
            actuator_id: 0,
            position: Float32::zero(),
            velocity: Float32::zero(),
            effort: Float32::zero(),
        }
    }

    /// The command to the given actuator; an axis that is not given is zero.
    pub fn new(
        actuator_id: u32,
        position: Option<Float32>,
        velocity: Option<Float32>,
        effort: Option<Float32>,
    ) -> (command: ActuatorCommand)
        ensures
            command == (ActuatorCommand {
                actuator_id,
                position: f32_or_zero(position),
                velocity: f32_or_zero(velocity),
                effort: f32_or_zero(effort),
            }),
    {
        ActuatorCommand {
            actuator_id,
            position: single_or_zero(position),
            velocity: single_or_zero(velocity),
            effort: single_or_zero(effort),
        }
    }

    /// The command to the given actuator whose axes are the three values of
    /// the list, in the order position, velocity, effort.
    pub fn from_values(actuator_id: u32, values: &[Float32]) -> (r: Result<
        ActuatorCommand,
        CountError,
    >)
        ensures
            values@.len() == 3 ==> r == Ok::<ActuatorCommand, CountError>(
                ActuatorCommand {
                    actuator_id,
                    position: values@[0],
                    velocity: values@[1],
                    effort: values@[2],
                },
            ),
            values@.len() != 3 ==> r == Err::<ActuatorCommand, CountError>(
                CountError { expected: 3, found: values@.len() as usize },
            ),
    {
        match expect_count(values.len(), 3) {
            Ok(()) => Ok(
                ActuatorCommand {
                    actuator_id,
                    position: values[0],
                    velocity: values[1],
                    effort: values[2],
                },
            ),
            Err(e) => Err(e),
        }
    }
}

impl Default for ActuatorCommand {
    fn default() -> (command: ActuatorCommand)
        ensures
            command == ActuatorCommand::zero(),
    {
        ActuatorCommand {
            actuator_id: 0,
            position: Float32 { bits: 0 },
            velocity: Float32 { bits: 0 },
            effort: Float32 { bits: 0 },
        }
    }
}

/// The text that an optional string holds, if it holds one.
pub open spec fn optional_text_view(text: Option<String>) -> Option<Seq<char>> {
    match text {
        Some(t) => Some(t@),
        None => None,
    }
}

impl View for ActuatorConfig {
    type V = ActuatorConfigView;

    open spec fn view(&self) -> ActuatorConfigView {
        ActuatorConfigView {
            actuator_id: self.actuator_id,
            kp: self.kp,
            kd: self.kd,
            ki: self.ki,
            max_torque: self.max_torque,
            name: optional_text_view(self.name),
        }
    }
}

impl ActuatorConfigView {
    /// The config of actuator 0 in which nothing is set.
    pub open spec fn empty() -> ActuatorConfigView {
        ActuatorConfigView {
            actuator_id: 0,
            kp: None,
            kd: None,
            ki: None,
            max_torque: None,
            name: None,
        }
    }
}

impl ActuatorConfig {
    /// The config of the given actuator with the given parameters; a
    /// parameter that is not given is absent.
    pub fn new(
        actuator_id: u32,
        kp: Option<Float64>,
        kd: Option<Float64>,
        ki: Option<Float64>,
        max_torque: Option<Float64>,
        name: Option<String>,
    ) -> (config: ActuatorConfig)
        ensures
            config@ == (ActuatorConfigView {
                actuator_id,
                kp,
                kd,
                ki,
                max_torque,
                name: optional_text_view(name),
            }),
    {
        ActuatorConfig { actuator_id, kp, kd, ki, max_torque, name }
    }
}

impl Default for ActuatorConfig {
    fn default() -> (config: ActuatorConfig)
        ensures
            config@ == ActuatorConfigView::empty(),
    {
        ActuatorConfig {
            actuator_id: 0,
            kp: None,
            kd: None,
            ki: None,
            max_torque: None,
            name: None,
        }
    }
}

/// The configs of a list as mathematical values.
pub open spec fn config_views(configs: Seq<ActuatorConfig>) -> Seq<ActuatorConfigView> {
    Seq::new(configs.len(), |i: int| configs[i]@)
}

impl View for KRecHeader {
    type V = KRecHeaderView;

    open spec fn view(&self) -> KRecHeaderView {
        KRecHeaderView {
            uuid: self.uuid@,
            task: self.task@,
            robot_platform: self.robot_platform@,
            robot_serial: self.robot_serial@,
            start_timestamp: self.start_timestamp,
            end_timestamp: self.end_timestamp,
            actuator_configs: config_views(self.actuator_configs@),
        }
    }
}

impl KRecHeaderView {
    /// The header with empty texts, zero timestamps and no actuator.
    pub open spec fn empty() -> KRecHeaderView {
        KRecHeaderView {
            uuid: Seq::empty(),
            task: Seq::empty(),
            robot_platform: Seq::empty(),
            robot_serial: Seq::empty(),
            start_timestamp: 0,
            end_timestamp: 0,
            actuator_configs: Seq::empty(),
        }
    }
}

/// Configs of which no two are of the same actuator. A header is expected to
/// hold its configs so; nothing enforces it.
pub open spec fn actuator_ids_distinct(configs: Seq<ActuatorConfigView>) -> bool {
    forall|i: int, j: int|
        0 <= i < j < configs.len() ==> (#[trigger] configs[i]).actuator_id != (
        #[trigger] configs[j]).actuator_id
}

impl KRecHeader {
    /// Whether no two configs of the header are of the same actuator.
    pub fn has_distinct_actuator_ids(&self) -> (distinct: bool)
        ensures
            distinct == actuator_ids_distinct(self@.actuator_configs),
    {
        let ghost configs = self@.actuator_configs;
        let count: usize = self.actuator_configs.len();
        let mut j: usize = 0;
        while j < count
            invariant
                j <= count,
                count == self.actuator_configs@.len(),
                configs == config_views(self.actuator_configs@),
                actuator_ids_distinct(configs.take(j as int)),
            decreases count - j,
        {
            let mut i: usize = 0;
            while i < j
                invariant
                    i <= j < count,
                    count == self.actuator_configs@.len(),
                    configs == config_views(self.actuator_configs@),
                    forall|k: int| 0 <= k < i ==> (#[trigger] configs[k]).actuator_id
                        != configs[j as int].actuator_id,
                decreases j - i,
            {
                if self.actuator_configs[i].actuator_id == self.actuator_configs[j].actuator_id {
                    proof {
                        assert(configs[i as int].actuator_id == configs[j as int].actuator_id);
                    }
                    return false;
                }
                i = i + 1;
            }
            proof {
                let seen = configs.take(j as int);
                let more = configs.take(j + 1);
                assert forall|a: int, b: int| 0 <= a < b < more.len() implies (
                #[trigger] more[a]).actuator_id != (#[trigger] more[b]).actuator_id by {
                    if b < j {
                        assert(more[a] == seen[a] && more[b] == seen[b]);
                    } else {
                        assert(more[a] == configs[a]);
                        assert(more[b] == configs[j as int]);
                    }
                }
            }
            j = j + 1;
        }
        proof {
            assert(configs.take(j as int) =~= configs);
        }
        true
    }

    /// The header with the given texts and time span, and no actuator yet.
    pub fn new(
        uuid: String,
        task: String,
        robot_platform: String,
        robot_serial: String,
        start_timestamp: u64,
        end_timestamp: u64,
    ) -> (header: KRecHeader)
        ensures
            header@ == (KRecHeaderView {
                uuid: uuid@,
                task: task@,
                robot_platform: robot_platform@,
                robot_serial: robot_serial@,
                start_timestamp,
                end_timestamp,
                actuator_configs: Seq::empty(),
            }),
    {
        let header = KRecHeader {
            uuid,
            task,
            robot_platform,
            robot_serial,
            start_timestamp,
            end_timestamp,
            actuator_configs: Vec::new(),
        };
        proof {
            assert(config_views(header.actuator_configs@) =~= Seq::<ActuatorConfigView>::empty());
        }
        header
    }

    /// Declares one more actuator, after those already declared.
    pub fn add_actuator_config(&mut self, config: ActuatorConfig)
        ensures
            final(self)@ == (KRecHeaderView {
                actuator_configs: old(self)@.actuator_configs.push(config@),
                ..old(self)@
            }),
    {
        self.actuator_configs.push(config);
        proof {
            assert(config_views(self.actuator_configs@) =~= config_views(
                old(self).actuator_configs@,
            ).push(config@));
        }
    }

    /// How many actuators the header declares.
    pub fn actuator_config_count(&self) -> (count: usize)
        ensures
            count == self@.actuator_configs.len(),
    {
        self.actuator_configs.len()
    }
}

impl Default for KRecHeader {
    fn default() -> (header: KRecHeader)
        ensures
            header@ == KRecHeaderView::empty(),
    {
        let header = KRecHeader {
            uuid: String::new(),
            task: String::new(),
            robot_platform: String::new(),
            robot_serial: String::new(),
            start_timestamp: 0,
            end_timestamp: 0,
            actuator_configs: Vec::new(),
        };
        proof {
            assert(config_views(header.actuator_configs@) =~= Seq::<ActuatorConfigView>::empty());
        }
        header
    }
}

impl View for KRecFrame {
    type V = KRecFrameView;

    open spec fn view(&self) -> KRecFrameView {
        KRecFrameView {
            video_timestamp: self.video_timestamp,
            frame_number: self.frame_number,
            inference_step: self.inference_step,
            actuator_states: self.actuator_states@,
            actuator_commands: self.actuator_commands,
            imu_values: self.imu_values,
        }
    }
}

impl KRecFrameView {
    /// The frame at time zero with no state, no command and no IMU sample.
    pub open spec fn empty() -> KRecFrameView {
        KRecFrameView {
            video_timestamp: 0,
            frame_number: 0,
            inference_step: 0,
            actuator_states: Seq::empty(),
            actuator_commands: None,
            imu_values: None,
        }
    }
}

impl KRecFrame {
    /// The frame with the given counters and nothing else; a counter that is
    /// not given is zero.
    pub fn new(
        video_timestamp: Option<u64>,
        frame_number: Option<u64>,
        inference_step: Option<u64>,
    ) -> (frame: KRecFrame)
        ensures
            frame@ == (KRecFrameView {
                video_timestamp: u64_or_zero(video_timestamp),
                frame_number: u64_or_zero(frame_number),
                inference_step: u64_or_zero(inference_step),
                ..KRecFrameView::empty()
            }),
    {
        KRecFrame {
            video_timestamp: count_or_zero(video_timestamp),
            frame_number: count_or_zero(frame_number),
            inference_step: count_or_zero(inference_step),
            actuator_states: Vec::new(),
            actuator_commands: None,
            imu_values: None,
        }
    }

    /// The frame whose counters are the three values of the list, in the
    /// order video timestamp, frame number, inference step, and which holds
    /// nothing else.
    pub fn from_values(values: &[u64]) -> (r: Result<KRecFrame, CountError>)
        ensures
            values@.len() == 3 ==> r is Ok && r->Ok_0@ == (KRecFrameView {
                video_timestamp: values@[0],
                frame_number: values@[1],
                inference_step: values@[2],
                ..KRecFrameView::empty()
            }),
            values@.len() != 3 ==> r == Err::<KRecFrame, CountError>(
                CountError { expected: 3, found: values@.len() as usize },
            ),
    {
        match expect_count(values.len(), 3) {
            Ok(()) => Ok(
                KRecFrame {
                    video_timestamp: values[0],
                    frame_number: values[1],
                    inference_step: values[2],
                    actuator_states: Vec::new(),
                    actuator_commands: None,
                    imu_values: None,
                },
            ),
            Err(e) => Err(e),
        }
    }

    /// Adds the state of one actuator, after those already in the frame.
    pub fn add_actuator_state(&mut self, state: ActuatorState)
        ensures
            final(self)@ == (KRecFrameView {
                actuator_states: old(self)@.actuator_states.push(state),
                ..old(self)@
            }),
    {
        self.actuator_states.push(state);
    }

    /// Removes every actuator state from the frame.
    pub fn clear_actuator_states(&mut self)
        ensures
            final(self)@ == (KRecFrameView { actuator_states: Seq::empty(), ..old(self)@ }),
    {
        self.actuator_states.clear();
    }

    /// The actuator states of the frame, in the order in which they were
    /// added.
    pub fn get_actuator_states(&self) -> (states: &Vec<ActuatorState>)
        ensures
            states@ == self@.actuator_states,
    {
        &self.actuator_states
    }

    /// How many actuator states the frame holds.
    pub fn actuator_state_count(&self) -> (count: usize)
        ensures
            count == self@.actuator_states.len(),
    {
        self.actuator_states.len()
    }

    /// Sets the command of the frame, or removes it where none is given.
    pub fn set_actuator_commands(&mut self, commands: Option<ActuatorCommand>)
        ensures
            final(self)@ == (KRecFrameView { actuator_commands: commands, ..old(self)@ }),
    {
        self.actuator_commands = commands;
    }

    /// The command of the frame, if it has one.
    pub fn get_actuator_commands(&self) -> (commands: Option<ActuatorCommand>)
        ensures
            commands == self@.actuator_commands,
    {
        self.actuator_commands
    }

    /// Removes the command from the frame.
    pub fn clear_actuator_commands(&mut self)
        ensures
            final(self)@ == (KRecFrameView { actuator_commands: None, ..old(self)@ }),
    {
        self.actuator_commands = None;
    }

    /// Whether the frame has a command.
    pub fn has_actuator_commands(&self) -> (has: bool)
        ensures
            has == self@.actuator_commands.is_some(),
    {
        self.actuator_commands.is_some()
    }

    /// Sets the IMU sample of the frame, or removes it where none is given.
    pub fn set_imu_values(&mut self, imu: Option<ImuValues>)
        ensures
            final(self)@ == (KRecFrameView { imu_values: imu, ..old(self)@ }),
    {
        self.imu_values = imu;
    }

    /// The IMU sample of the frame, if it has one.
    pub fn get_imu_values(&self) -> (imu: Option<ImuValues>)
        ensures
            imu == self@.imu_values,
    {
        self.imu_values
    }

    /// Removes the IMU sample from the frame.
    pub fn clear_imu_values(&mut self)
        ensures
            final(self)@ == (KRecFrameView { imu_values: None, ..old(self)@ }),
    {
        self.imu_values = None;
    }

    /// Whether the frame has an IMU sample.
    pub fn has_imu_values(&self) -> (has: bool)
        ensures
            has == self@.imu_values.is_some(),
    {
        self.imu_values.is_some()
    }
}

impl Default for KRecFrame {
    fn default() -> (frame: KRecFrame)
        ensures
            frame@ == KRecFrameView::empty(),
    {
        KRecFrame {
            video_timestamp: 0,
            frame_number: 0,
            inference_step: 0,
            actuator_states: Vec::new(),
            actuator_commands: None,
            imu_values: None,
        }
    }
}

} // verus!

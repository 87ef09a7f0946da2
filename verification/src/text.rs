//! Summaries and reports of a recording and of its frames, as text.
//!
//! The reports hold what is text and whole numbers. The lines that print
//! floating-point values stand between them and are left to the caller.

use crate::error::{CombineError, DecodeError, EncodeError, KRecError};
use crate::recording::{FrameRangeError, KRec, KRecView};
use crate::schema::{ActuatorConfig, ActuatorConfigView, KRecFrame, KRecFrameView};
use vstd::prelude::*;
use vstd::string::StringExecFns;

verus! {

/// The character of a decimal digit.
pub open spec fn digit(d: nat) -> char {
    if d == 0 {
        '0'
    } else if d == 1 {
        '1'
    } else if d == 2 {
        '2'
    } else if d == 3 {
        '3'
    } else if d == 4 {
        '4'
    } else if d == 5 {
        '5'
    } else if d == 6 {
        '6'
    } else if d == 7 {
        '7'
    } else if d == 8 {
        '8'
    } else {
        '9'
    }
}

/// A number in decimal, without sign and without leading zeros.
pub open spec fn decimal(n: nat) -> Seq<char>
    decreases n,
{
    if n < 10 {
        seq![digit(n)]
    } else {
        decimal(n / 10).push(digit(n % 10))
    }
}

/// A flag in words.
pub open spec fn flag_word(flag: bool) -> Seq<char> {
    if flag {
        "true"@
    } else {
        "false"@
    }
}

/// The summary of a recording: the number of its frames, the four texts of
/// its header, and the number of its actuator configs.
pub open spec fn recording_summary(r: KRecView) -> Seq<char> {
    "KRec(frames="@ + decimal(r.frames.len()) + ", header=KRecHeader(uuid='"@ + r.header.uuid
        + "', task='"@ + r.header.task + "', robot_platform='"@ + r.header.robot_platform
        + "', robot_serial='"@ + r.header.robot_serial + "', configs="@ + decimal(
        r.header.actuator_configs.len(),
    ) + "))"@
}

/// The summary of a frame: its three counters, the number of its actuator
/// states, and whether it has a command and an IMU sample.
pub open spec fn frame_summary(f: KRecFrameView) -> Seq<char> {
    "KRecFrame(video_timestamp="@ + decimal(f.video_timestamp as nat) + ", frame_number="@
        + decimal(f.frame_number as nat) + ", inference_step="@ + decimal(f.inference_step as nat)
        + ", states="@ + decimal(f.actuator_states.len()) + ", has_commands="@ + flag_word(
        f.actuator_commands is Some,
    ) + ", has_imu="@ + flag_word(f.imu_values is Some) + ")"@
}

/// The head of the report on a recording: the title, the texts and the
/// timestamps of the header, and the heading of the list of actuator configs.
pub open spec fn recording_report_head(r: KRecView) -> Seq<char> {
    "KRec Recording\n==============\n\nTask: "@ + r.header.task + "\nRobot Platform: "@
        + r.header.robot_platform + "\nRobot Serial: "@ + r.header.robot_serial + "\nUUID: "@
        + r.header.uuid + "\nStart Timestamp: "@ + decimal(r.header.start_timestamp as nat)
        + "\nEnd Timestamp: "@ + decimal(r.header.end_timestamp as nat)
        + "\n\nActuator Configs ("@ + decimal(r.header.actuator_configs.len())
        + ")\n----------------\n"@
}

/// How the line of an actuator config starts: with the number of the
/// actuator and, where it has one, its name.
pub open spec fn config_label(c: ActuatorConfigView) -> Seq<char> {
    "ID "@ + decimal(c.actuator_id as nat) + ": "@ + match c.name {
        Some(name) => name + " "@,
        None => Seq::empty(),
    }
}

/// What the report on a recording says of a first frame.
pub open spec fn first_frame_report(f: KRecFrameView) -> Seq<char> {
    "\nFirst frame details:\n  Frame number: "@ + decimal(f.frame_number as nat)
        + "\n  Inference step: "@ + decimal(f.inference_step as nat) + "\n  Actuator states: "@
        + decimal(f.actuator_states.len()) + "\n"@ + if f.actuator_commands is Some {
        "  Has actuator commands: yes\n"@
    } else {
        Seq::empty()
    } + if f.imu_values is Some {
        "  Has IMU values: yes\n"@
    } else {
        Seq::empty()
    }
}

/// The tail of the report on a recording: the number of frames and, where
/// there is a frame, the video timestamps of the first and of the last, and
/// the details of the first.
pub open spec fn recording_report_tail(r: KRecView) -> Seq<char> {
    "\nFrames ("@ + decimal(r.frames.len()) + ")\n------------\n"@ + if r.frames.len() > 0 {
        "Time range: "@ + decimal(r.frames.first().video_timestamp as nat) + " to "@ + decimal(
            r.frames.last().video_timestamp as nat,
        ) + "\n"@ + first_frame_report(r.frames.first())
    } else {
        Seq::empty()
    }
}

/// The head of the report on the frame at position `index`: the position,
/// the three counters, and the heading of the list of actuator states.
pub open spec fn frame_report_head(index: nat, f: KRecFrameView) -> Seq<char> {
    "Frame "@ + decimal(index) + "\n=========\n\nVideo timestamp: "@ + decimal(
        f.video_timestamp as nat,
    ) + "\nFrame number: "@ + decimal(f.frame_number as nat) + "\nInference step: "@ + decimal(
        f.inference_step as nat,
    ) + "\n\nActuator States ("@ + decimal(f.actuator_states.len()) + ")\n---------------\n"@
}

/// What a decode error says.
pub open spec fn decode_error_message(e: DecodeError) -> Seq<char> {
    match e {
        DecodeError::Truncated => "the data ends before what it announces"@,
        DecodeError::BadMagic => "the data does not start with the expected signature"@,
        DecodeError::UnsupportedVersion { found } => "unsupported format version "@ + decimal(
            found as nat,
        ),
        DecodeError::Malformed => "a record is malformed"@,
        DecodeError::InvalidText => "a text is not valid UTF-8"@,
        DecodeError::TrailingBytes => "data follows the end"@,
    }
}

/// What an encode error says.
pub open spec fn encode_error_message(e: EncodeError) -> Seq<char> {
    match e {
        EncodeError::HeaderTextTooLong => "a text of the header is longer than 65535 bytes"@,
        EncodeError::ActuatorConfigTooLarge => "an actuator config is larger than 65535 bytes"@,
    }
}

/// What a combine error says.
pub open spec fn combine_error_message(e: CombineError) -> Seq<char> {
    match e {
        CombineError::EmptyVideo => "the video is empty"@,
        CombineError::UuidTooLong => "the uuid is longer than 65535 bytes"@,
        CombineError::TaskTooLong => "the task is longer than 65535 bytes"@,
    }
}

/// What an error of saving, loading or combining says: its kind, and, where
/// the library found the reason, the reason.
pub open spec fn error_message(e: KRecError) -> Seq<char> {
    match e {
        KRecError::NotFound => "file not found"@,
        KRecError::IoFailure => "I/O failure"@,
        KRecError::DecodeFailure(reason) => "decode failure: "@ + decode_error_message(reason),
        KRecError::EncodeFailure(reason) => "encode failure: "@ + encode_error_message(reason),
        KRecError::CombineFailure(reason) => "combine failure: "@ + combine_error_message(reason),
    }
}

/// What a frame range error says: the position that was asked for, and the
/// positions that the recording has.
pub open spec fn frame_range_message(e: FrameRangeError) -> Seq<char> {
    "Frame number "@ + decimal(e.index as nat) + if e.count == 0 {
        " out of range (the recording has no frame)"@
    } else {
        " out of range (0-"@ + decimal((e.count - 1) as nat) + ")"@
    }
}

/// The text of one decimal digit.
fn digit_text(d: u8) -> (text: &'static str)
    requires
        d < 10,
    ensures
        text@ == seq![digit(d as nat)],
{
    proof {
        reveal_strlit("0");
        reveal_strlit("1");
        reveal_strlit("2");
        reveal_strlit("3");
        reveal_strlit("4");
        reveal_strlit("5");
        reveal_strlit("6");
        reveal_strlit("7");
        reveal_strlit("8");
        reveal_strlit("9");
    }
    let text = if d == 0 {
        "0"
    } else if d == 1 {
        "1"
    } else if d == 2 {
        "2"
    } else if d == 3 {
        "3"
    } else if d == 4 {
        "4"
    } else if d == 5 {
        "5"
    } else if d == 6 {
        "6"
    } else if d == 7 {
        "7"
    } else if d == 8 {
        "8"
    } else {
        "9"
    };
    proof {
        assert(text@ =~= seq![digit(d as nat)]);
    }
    text
}

/// Appends a number in decimal.
pub fn push_decimal(out: &mut String, n: u64)
    ensures
        final(out)@ == old(out)@ + decimal(n as nat),
    decreases n,
{
    if n >= 10 {
        push_decimal(out, n / 10);
    }
    out.append(digit_text((n % 10) as u8));
    proof {
        if n >= 10 {
            assert(out@ =~= old(out)@ + decimal((n / 10) as nat).push(digit((n % 10) as nat)));
        } else {
            assert(out@ =~= old(out)@ + seq![digit(n as nat)]);
        }
    }
}

/// Appends a flag in words.
pub fn push_flag(out: &mut String, flag: bool)
    ensures
        final(out)@ == old(out)@ + flag_word(flag),
{
    if flag {
        out.append("true");
    } else {
        out.append("false");
    }
}

impl KRec {
    /// A one-line summary of the recording.
    pub fn summary(&self) -> (text: String)
        ensures
            text@ == recording_summary(self@),
    {
        let header = self.header();
        let mut text = String::from_str("KRec(frames=");
        push_decimal(&mut text, self.frame_count() as u64);
        text.append(", header=KRecHeader(uuid='");
        text.append(header.uuid.as_str());
        text.append("', task='");
        text.append(header.task.as_str());
        text.append("', robot_platform='");
        text.append(header.robot_platform.as_str());
        text.append("', robot_serial='");
        text.append(header.robot_serial.as_str());
        text.append("', configs=");
        push_decimal(&mut text, header.actuator_configs.len() as u64);
        text.append("))");
        text
    }
}

impl KRec {
    /// The head of the report on the recording.
    pub fn report_head(&self) -> (text: String)
        ensures
            text@ == recording_report_head(self@),
    {
        let header = self.header();
        let mut text = String::from_str("KRec Recording\n==============\n\nTask: ");
        text.append(header.task.as_str());
        text.append("\nRobot Platform: ");
        text.append(header.robot_platform.as_str());
        text.append("\nRobot Serial: ");
        text.append(header.robot_serial.as_str());
        text.append("\nUUID: ");
        text.append(header.uuid.as_str());
        text.append("\nStart Timestamp: ");
        push_decimal(&mut text, header.start_timestamp);
        text.append("\nEnd Timestamp: ");
        push_decimal(&mut text, header.end_timestamp);
        text.append("\n\nActuator Configs (");
        push_decimal(&mut text, header.actuator_configs.len() as u64);
        text.append(")\n----------------\n");
        text
    }

    /// The tail of the report on the recording.
    pub fn report_tail(&self) -> (text: String)
        ensures
            text@ == recording_report_tail(self@),
    {
        let frames = self.frames();
        let count: usize = frames.len();
        let mut text = String::from_str("\nFrames (");
        push_decimal(&mut text, count as u64);
        text.append(")\n------------\n");
        let ghost heading = text@;
        if count > 0 {
            let first = &frames[0];
            let last = &frames[count - 1];
            proof {
                assert(self@.frames.first() == first@);
                assert(self@.frames.last() == last@);
            }
            let mut range = String::from_str("Time range: ");
            push_decimal(&mut range, first.video_timestamp);
            range.append(" to ");
            push_decimal(&mut range, last.video_timestamp);
            range.append("\n");
            let details = first.first_frame_report();
            text.append(range.as_str());
            text.append(details.as_str());
            proof {
                assert(text@ =~= heading + (range@ + details@));
            }
        } else {
            proof {
                assert(text@ =~= heading + Seq::<char>::empty());
            }
        }
        text
    }

    /// The head of the report on the frame at the given position, counted
    /// from zero in capture order.
    pub fn frame_report_head(&self, index: usize) -> (r: Result<String, FrameRangeError>)
        ensures
            index < self@.frames.len() ==> r is Ok && r->Ok_0@ == frame_report_head(
                index as nat,
                self@.frames[index as int],
            ),
            index >= self@.frames.len() ==> r == Err::<String, FrameRangeError>(
                FrameRangeError { index, count: self@.frames.len() as usize },
            ),
    {
        let frame = match self.frame(index) {
            Ok(frame) => frame,
            Err(e) => {
                return Err(e);
            },
        };
        let mut text = String::from_str("Frame ");
        push_decimal(&mut text, index as u64);
        text.append("\n=========\n\nVideo timestamp: ");
        push_decimal(&mut text, frame.video_timestamp);
        text.append("\nFrame number: ");
        push_decimal(&mut text, frame.frame_number);
        text.append("\nInference step: ");
        push_decimal(&mut text, frame.inference_step);
        text.append("\n\nActuator States (");
        push_decimal(&mut text, frame.actuator_states.len() as u64);
        text.append(")\n---------------\n");
        Ok(text)
    }
}

impl DecodeError {
    /// What the error says.
    pub fn message(&self) -> (text: String)
        ensures
            text@ == decode_error_message(*self),
    {
        match self {
            DecodeError::Truncated => String::from_str("the data ends before what it announces"),
            DecodeError::BadMagic => String::from_str(
                "the data does not start with the expected signature",
            ),
            DecodeError::UnsupportedVersion { found } => {
                let mut text = String::from_str("unsupported format version ");
                push_decimal(&mut text, *found as u64);
                text
            },
            DecodeError::Malformed => String::from_str("a record is malformed"),
            DecodeError::InvalidText => String::from_str("a text is not valid UTF-8"),
            DecodeError::TrailingBytes => String::from_str("data follows the end"),
        }
    }
}

impl EncodeError {
    /// What the error says.
    pub fn message(&self) -> (text: String)
        ensures
            text@ == encode_error_message(*self),
    {
        match self {
            EncodeError::HeaderTextTooLong => String::from_str(
                "a text of the header is longer than 65535 bytes",
            ),
            EncodeError::ActuatorConfigTooLarge => String::from_str(
                "an actuator config is larger than 65535 bytes",
            ),
        }
    }
}

impl CombineError {
    /// What the error says.
    pub fn message(&self) -> (text: String)
        ensures
            text@ == combine_error_message(*self),
    {
        match self {
            CombineError::EmptyVideo => String::from_str("the video is empty"),
            CombineError::UuidTooLong => String::from_str("the uuid is longer than 65535 bytes"),
            CombineError::TaskTooLong => String::from_str("the task is longer than 65535 bytes"),
        }
    }
}

impl KRecError {
    /// What the error says.
    pub fn message(&self) -> (text: String)
        ensures
            text@ == error_message(*self),
    {
        match self {
            KRecError::NotFound => String::from_str("file not found"),
            KRecError::IoFailure => String::from_str("I/O failure"),
            KRecError::DecodeFailure(reason) => {
                let mut text = String::from_str("decode failure: ");
                text.append(reason.message().as_str());
                text
            },
            KRecError::EncodeFailure(reason) => {
                let mut text = String::from_str("encode failure: ");
                text.append(reason.message().as_str());
                text
            },
            KRecError::CombineFailure(reason) => {
                let mut text = String::from_str("combine failure: ");
                text.append(reason.message().as_str());
                text
            },
        }
    }
}

impl FrameRangeError {
    /// What the error says.
    pub fn message(&self) -> (text: String)
        ensures
            text@ == frame_range_message(*self),
    {
        let mut text = String::from_str("Frame number ");
        push_decimal(&mut text, self.index as u64);
        if self.count == 0 {
            text.append(" out of range (the recording has no frame)");
        } else {
            let mut range = String::from_str(" out of range (0-");
            push_decimal(&mut range, (self.count - 1) as u64);
            range.append(")");
            text.append(range.as_str());
        }
        text
    }
}

impl ActuatorConfig {
    /// How the line of the config in a report starts.
    pub fn label(&self) -> (text: String)
        ensures
            text@ == config_label(self@),
    {
        let mut text = String::from_str("ID ");
        push_decimal(&mut text, self.actuator_id as u64);
        text.append(": ");
        match &self.name {
            Some(name) => {
                let ghost so_far = text@;
                text.append(name.as_str());
                text.append(" ");
                proof {
                    assert(text@ =~= so_far + (name@ + " "@));
                }
            },
            None => {
                proof {
                    assert(text@ =~= text@ + Seq::<char>::empty());
                }
            },
        }
        text
    }
}

impl KRecFrame {
    /// What the report on a recording says of this frame where it is the
    /// first.
    pub fn first_frame_report(&self) -> (text: String)
        ensures
            text@ == first_frame_report(self@),
    {
        let mut text = String::from_str("\nFirst frame details:\n  Frame number: ");
        push_decimal(&mut text, self.frame_number);
        text.append("\n  Inference step: ");
        push_decimal(&mut text, self.inference_step);
        text.append("\n  Actuator states: ");
        push_decimal(&mut text, self.actuator_states.len() as u64);
        text.append("\n");
        let ghost counters = text@;
        if self.actuator_commands.is_some() {
            text.append("  Has actuator commands: yes\n");
        }
        let ghost commands = text@;
        if self.imu_values.is_some() {
            text.append("  Has IMU values: yes\n");
        }
        proof {
            let c = if self.actuator_commands is Some {
                "  Has actuator commands: yes\n"@
            } else {
                Seq::<char>::empty()
            };
            let i = if self.imu_values is Some {
                "  Has IMU values: yes\n"@
            } else {
                Seq::<char>::empty()
            };
            assert(commands =~= counters + c);
            assert(text@ =~= commands + i);
        }
        text
    }

    /// A one-line summary of the frame.
    pub fn summary(&self) -> (text: String)
        ensures
            text@ == frame_summary(self@),
    {
        let mut text = String::from_str("KRecFrame(video_timestamp=");
        push_decimal(&mut text, self.video_timestamp);
        text.append(", frame_number=");
        push_decimal(&mut text, self.frame_number);
        text.append(", inference_step=");
        push_decimal(&mut text, self.inference_step);
        text.append(", states=");
        push_decimal(&mut text, self.actuator_states.len() as u64);
        text.append(", has_commands=");
        push_flag(&mut text, self.actuator_commands.is_some());
        text.append(", has_imu=");
        push_flag(&mut text, self.imu_values.is_some());
        text.append(")");
        text
    }
}

} // verus!

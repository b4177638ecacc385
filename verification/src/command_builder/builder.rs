use crate::intent::types::{Intent, IntentView, OperationType};
use vstd::prelude::*;

verus! {

/// Command builder for converting intents into ffmpeg commands.
#[derive(Debug)]
pub struct CommandBuilder;

/// The reason for which an intent has no command. Every intent has one
/// today, so the builder never returns this error.
#[derive(Debug)]
pub struct BuildError {
    /// What was wrong with the intent
    pub message: String,
}

/// The value stored in `parameters` under `name`, or `default` if there is
/// none.
pub open spec fn parameter_or(
    parameters: Map<Seq<char>, Seq<char>>,
    name: Seq<char>,
    default: Seq<char>,
) -> Seq<char> {
    if parameters.contains_key(name) {
        parameters[name]
    } else {
        default
    }
}

/// The options that stand between the input and the output of a command:
/// none for a conversion, a scale filter of 1920 by 1080 unless the
/// parameters `width` and `height` say otherwise for a resize, the codecs
/// `libx264` and `aac` unless the parameters `vcodec` and `acodec` say
/// otherwise for a transcoding, and the flags that keep only the audio for an
/// extraction.
pub open spec fn operation_options(
    operation: OperationType,
    parameters: Map<Seq<char>, Seq<char>>,
) -> Seq<char> {
    match operation {
        OperationType::Convert => Seq::empty(),
        OperationType::Resize => " -vf scale="@ + parameter_or(parameters, "width"@, "1920"@)
            + ":"@ + parameter_or(parameters, "height"@, "1080"@),
        OperationType::Transcode => " -c:v "@ + parameter_or(parameters, "vcodec"@, "libx264"@)
            + " -c:a "@ + parameter_or(parameters, "acodec"@, "aac"@),
        OperationType::ExtractAudio => " -q:a 0 -map a"@,
    }
}

/// The ffmpeg command that carries out `intent` and writes to `output_path`:
/// the input path in double quotes, the options of the operation, and the
/// output path in double quotes.
pub open spec fn command_text(intent: IntentView, output_path: Seq<char>) -> Seq<char> {
    "ffmpeg -i \""@ + intent.input_path + "\""@ + operation_options(
        intent.operation,
        intent.parameters,
    ) + " \""@ + output_path + "\""@
}

impl CommandBuilder {
    /// Creates a new command builder.
    pub fn new() -> Self {
        Self
    }

    /// Builds an ffmpeg command from the given intent, writing to the
    /// intent's own output path.
    pub fn build_command(&self, intent: &Intent) -> (command: Result<String, BuildError>)
        ensures
            command is Ok,
            command->Ok_0@ == command_text(intent@, intent.output_path@),
    {
        self.build_command_with_output_path(intent, intent.output_path.clone())
    }

    /// Builds an ffmpeg command from the given intent, writing to
    /// `output_path` in place of the intent's own output path.
    pub fn build_command_with_output_path(&self, intent: &Intent, output_path: String) -> (command:
        Result<String, BuildError>)
        ensures
            command is Ok,
            command->Ok_0@ == command_text(intent@, output_path@),
    {
        let mut cmd = String::from_str("ffmpeg -i \"");
        cmd.append(intent.input_path.as_str());
        cmd.append("\"");
        match intent.operation {
            OperationType::Convert => {},
            OperationType::Resize => {
                cmd.append(" -vf scale=");
                cmd.append(parameter(intent, "width", "1920"));
                cmd.append(":");
                cmd.append(parameter(intent, "height", "1080"));
            },
            OperationType::Transcode => {
                cmd.append(" -c:v ");
                cmd.append(parameter(intent, "vcodec", "libx264"));
                cmd.append(" -c:a ");
                cmd.append(parameter(intent, "acodec", "aac"));
            },
            OperationType::ExtractAudio => {
                cmd.append(" -q:a 0 -map a");
            },
        }
        cmd.append(" \"");
        cmd.append(output_path.as_str());
        cmd.append("\"");
        assert(cmd@ =~= command_text(intent@, output_path@));
        Ok(cmd)
    }
}

/// The parameter `name` of `intent`, or `default` if it has none.
fn parameter<'a>(intent: &'a Intent, name: &str, default: &'a str) -> (value: &'a str)
    ensures
        value@ == parameter_or(intent@.parameters, name@, default@),
{
    match intent.parameters.get(name) {
        Some(value) => value.as_str(),
        None => default,
    }
}

} // verus!

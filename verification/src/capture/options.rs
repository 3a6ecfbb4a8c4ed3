//! The command line of the capture tool.

use crate::brackets::palette::{AutoBracketColorizationConfig, Measure};
use crate::text;
use vstd::prelude::*;

verus! {

/// The contrast that per-accent adjustment aims for unless told otherwise: 55.
pub const UPSTREAM_MINIMUM_APCA_CONTRAST: i64 = 60_473_139_527_680;

/// An option that takes a value.
#[derive(Clone, Copy, Debug, PartialEq, Eq, Structural)]
pub enum Flag {
    OutputDir,
    UpstreamApcaThreshold,
    StackUpstreamApcaThresholds,
    AutoBackgroundApcaLightThreshold,
    AutoBackgroundApcaDarkThreshold,
    AutoAdjacentOklabLightThreshold,
    AutoAdjacentOklabDarkThreshold,
    StackAutoBackgroundApcaThresholds,
    StackAutoAdjacentOklabThresholds,
}

impl Flag {
    /// The flag as it is written.
    pub open spec fn spec_name(self) -> Seq<char> {
        match self {
            Flag::OutputDir => "--output-dir"@,
            Flag::UpstreamApcaThreshold => "--upstream-apca-threshold"@,
            Flag::StackUpstreamApcaThresholds => "--stack-upstream-apca-thresholds"@,
            Flag::AutoBackgroundApcaLightThreshold => "--auto-background-apca-light-threshold"@,
            Flag::AutoBackgroundApcaDarkThreshold => "--auto-background-apca-dark-threshold"@,
            Flag::AutoAdjacentOklabLightThreshold => "--auto-adjacent-oklab-light-threshold"@,
            Flag::AutoAdjacentOklabDarkThreshold => "--auto-adjacent-oklab-dark-threshold"@,
            Flag::StackAutoBackgroundApcaThresholds => "--stack-auto-background-apca-thresholds"@,
            Flag::StackAutoAdjacentOklabThresholds => "--stack-auto-adjacent-oklab-thresholds"@,
        }
    }

    /// The flag as it is written.
    pub fn name(self) -> (name: &'static str)
        ensures
            name@ == self.spec_name(),
    {
        match self {
            Flag::OutputDir => "--output-dir",
            Flag::UpstreamApcaThreshold => "--upstream-apca-threshold",
            Flag::StackUpstreamApcaThresholds => "--stack-upstream-apca-thresholds",
            Flag::AutoBackgroundApcaLightThreshold => "--auto-background-apca-light-threshold",
            Flag::AutoBackgroundApcaDarkThreshold => "--auto-background-apca-dark-threshold",
            Flag::AutoAdjacentOklabLightThreshold => "--auto-adjacent-oklab-light-threshold",
            Flag::AutoAdjacentOklabDarkThreshold => "--auto-adjacent-oklab-dark-threshold",
            Flag::StackAutoBackgroundApcaThresholds => "--stack-auto-background-apca-thresholds",
            Flag::StackAutoAdjacentOklabThresholds => "--stack-auto-adjacent-oklab-thresholds",
        }
    }

    /// The flag that an argument names, if any.
    pub open spec fn spec_named(argument: Seq<char>) -> Option<Flag> {
        if argument == "--output-dir"@ {
            Some(Flag::OutputDir)
        } else if argument == "--upstream-apca-threshold"@ {
            Some(Flag::UpstreamApcaThreshold)
        } else if argument == "--stack-upstream-apca-thresholds"@ {
            Some(Flag::StackUpstreamApcaThresholds)
        } else if argument == "--auto-background-apca-light-threshold"@ {
            Some(Flag::AutoBackgroundApcaLightThreshold)
        } else if argument == "--auto-background-apca-dark-threshold"@ {
            Some(Flag::AutoBackgroundApcaDarkThreshold)
        } else if argument == "--auto-adjacent-oklab-light-threshold"@ {
            Some(Flag::AutoAdjacentOklabLightThreshold)
        } else if argument == "--auto-adjacent-oklab-dark-threshold"@ {
            Some(Flag::AutoAdjacentOklabDarkThreshold)
        } else if argument == "--stack-auto-background-apca-thresholds"@ {
            Some(Flag::StackAutoBackgroundApcaThresholds)
        } else if argument == "--stack-auto-adjacent-oklab-thresholds"@ {
            Some(Flag::StackAutoAdjacentOklabThresholds)
        } else {
            None
        }
    }

    /// The flag that an argument names, if any.
    pub fn named(argument: &str) -> (flag: Option<Flag>)
        ensures
            flag == Flag::spec_named(argument@),
    {
        let chars: Vec<char> = text::chars_of(argument);
        if text::is_text(&chars, "--output-dir") {
            Some(Flag::OutputDir)
        } else if text::is_text(&chars, "--upstream-apca-threshold") {
            Some(Flag::UpstreamApcaThreshold)
        } else if text::is_text(&chars, "--stack-upstream-apca-thresholds") {
            Some(Flag::StackUpstreamApcaThresholds)
        } else if text::is_text(&chars, "--auto-background-apca-light-threshold") {
            Some(Flag::AutoBackgroundApcaLightThreshold)
        } else if text::is_text(&chars, "--auto-background-apca-dark-threshold") {
            Some(Flag::AutoBackgroundApcaDarkThreshold)
        } else if text::is_text(&chars, "--auto-adjacent-oklab-light-threshold") {
            Some(Flag::AutoAdjacentOklabLightThreshold)
        } else if text::is_text(&chars, "--auto-adjacent-oklab-dark-threshold") {
            Some(Flag::AutoAdjacentOklabDarkThreshold)
        } else if text::is_text(&chars, "--stack-auto-background-apca-thresholds") {
            Some(Flag::StackAutoBackgroundApcaThresholds)
        } else if text::is_text(&chars, "--stack-auto-adjacent-oklab-thresholds") {
            Some(Flag::StackAutoAdjacentOklabThresholds)
        } else {
            None
        }
    }

    /// The flag takes a list of thresholds separated by commas.
    pub open spec fn takes_list(self) -> bool {
        self == Flag::StackUpstreamApcaThresholds || self == Flag::StackAutoBackgroundApcaThresholds
            || self == Flag::StackAutoAdjacentOklabThresholds
    }
}

/// The name of a flag names that flag.
pub proof fn law_flag_names_are_distinct(flag: Flag)
    ensures
        Flag::spec_named(flag.spec_name()) == Some(flag),
{
    reveal_strlit("--output-dir");
    reveal_strlit("--upstream-apca-threshold");
    reveal_strlit("--stack-upstream-apca-thresholds");
    reveal_strlit("--auto-background-apca-light-threshold");
    reveal_strlit("--auto-background-apca-dark-threshold");
    reveal_strlit("--auto-adjacent-oklab-light-threshold");
    reveal_strlit("--auto-adjacent-oklab-dark-threshold");
    reveal_strlit("--stack-auto-background-apca-thresholds");
    reveal_strlit("--stack-auto-adjacent-oklab-thresholds");
    assert("--output-dir"@.len() == 12);
    assert("--upstream-apca-threshold"@.len() == 25);
    assert("--stack-upstream-apca-thresholds"@.len() == 32);
    assert("--auto-background-apca-light-threshold"@.len() == 38);
    assert("--auto-background-apca-dark-threshold"@.len() == 37);
    assert("--auto-adjacent-oklab-light-threshold"@.len() == 37);
    assert("--auto-adjacent-oklab-dark-threshold"@.len() == 36);
    assert("--stack-auto-background-apca-thresholds"@.len() == 39);
    assert("--stack-auto-adjacent-oklab-thresholds"@.len() == 38);
    assert("--auto-background-apca-light-threshold"@[2] == 'a');
    assert("--stack-auto-adjacent-oklab-thresholds"@[2] == 's');
    assert("--auto-background-apca-dark-threshold"@[7] == 'b');
    assert("--auto-adjacent-oklab-light-threshold"@[7] == 'a');
}

/// The parts of a list of thresholds: the pieces between commas, without the
/// white space round them, and without the empty ones.
pub open spec fn threshold_parts(list: Seq<char>) -> Seq<Seq<char>> {
    text::pieces(list, ',').map_values(|piece: Seq<char>| text::trimmed(piece)).filter(
        |piece: Seq<char>| piece.len() > 0,
    )
}

/// Splits a list of thresholds into its parts.
pub fn split_threshold_list(list: &str) -> (parts: Vec<String>)
    ensures
        views(parts@) == threshold_parts(list@),
{
    let chars: Vec<char> = text::chars_of(list);
    let all: Vec<Vec<char>> = text::split(&chars, ',');
    let mut parts: Vec<String> = Vec::new();
    let ghost trimmed = text::texts(all@).map_values(|piece: Seq<char>| text::trimmed(piece));
    let ghost nonempty = |piece: Seq<char>| piece.len() > 0;
    let mut i: usize = 0;
    assert(views(parts@) =~= trimmed.take(0).filter(nonempty)) by {
        reveal(Seq::filter);
        assert(trimmed.take(0) =~= Seq::empty());
    }
    while i < all.len()
        invariant
            i <= all@.len(),
            trimmed == text::texts(all@).map_values(|piece: Seq<char>| text::trimmed(piece)),
            nonempty == (|piece: Seq<char>| piece.len() > 0),
            views(parts@) == trimmed.take(i as int).filter(nonempty),
        decreases all@.len() - i,
    {
        let part: Vec<char> = text::trim(&all[i]);
        let ghost before = parts@;
        proof {
            reveal(Seq::filter);
            assert(trimmed.take(i as int + 1).drop_last() =~= trimmed.take(i as int));
            assert(trimmed.take(i as int + 1).last() == part@);
        }
        if part.len() > 0 {
            let added: String = text::string_of(&part);
            parts.push(added);
            assert(views(parts@) =~= views(before).push(part@));
        }
        i = i + 1;
    }
    assert(trimmed.take(i as int) =~= trimmed);
    parts
}

/// What a list of strings holds.
pub open spec fn views(list: Seq<String>) -> Seq<Seq<char>> {
    list.map_values(|text: String| text@)
}

/// A command-line argument, and what it means as a number and as a list of
/// numbers: one entry for each part of the list, `None` where that is no number.
#[derive(Clone, Debug)]
pub struct Argument {
    pub text: String,
    pub number: Option<Measure>,
    pub list: Vec<Option<Measure>>,
}

impl Argument {
    /// There is one number, or none, for each part of the list.
    pub open spec fn well_formed(&self) -> bool {
        self.list@.len() == threshold_parts(self.text@).len()
    }
}

/// Why a command line was refused.
#[derive(Clone, Debug)]
pub enum OptionsError {
    /// The flag was the last argument.
    MissingValue(Flag),
    /// The flag's value is not a number.
    NotANumber(Flag),
    /// A part of a list is not a number.
    NotAThreshold(String),
    /// No theme file was named.
    Usage,
}

/// An error as a mathematical value.
pub enum OptionsErrorView {
    MissingValue(Flag),
    NotANumber(Flag),
    NotAThreshold(Seq<char>),
    Usage,
}

impl View for OptionsError {
    type V = OptionsErrorView;

    open spec fn view(&self) -> OptionsErrorView {
        match self {
            OptionsError::MissingValue(flag) => OptionsErrorView::MissingValue(*flag),
            OptionsError::NotANumber(flag) => OptionsErrorView::NotANumber(*flag),
            OptionsError::NotAThreshold(part) => OptionsErrorView::NotAThreshold(part@),
            OptionsError::Usage => OptionsErrorView::Usage,
        }
    }
}

/// How the tool is called.
pub open spec fn usage_text() -> Seq<char> {
    "usage: cargo run -p zed --features visual-tests --bin zed_bracket_contrast_capture -- [--output-dir <dir>] [--upstream-apca-threshold <value>] [--stack-upstream-apca-thresholds <comma-separated-values>] [--auto-background-apca-light-threshold <value>] [--auto-background-apca-dark-threshold <value>] [--auto-adjacent-oklab-light-threshold <value>] [--auto-adjacent-oklab-dark-threshold <value>] [--stack-auto-background-apca-thresholds <comma-separated-values>] [--stack-auto-adjacent-oklab-thresholds <comma-separated-values>] <theme.json> [theme.json ...]"@
}

impl OptionsErrorView {
    /// The message for an error.
    pub open spec fn message(self) -> Seq<char> {
        match self {
            OptionsErrorView::MissingValue(flag) => if flag == Flag::OutputDir {
                "expected directory after "@ + flag.spec_name()
            } else if flag.takes_list() {
                "expected comma-separated thresholds after "@ + flag.spec_name()
            } else {
                "expected threshold after "@ + flag.spec_name()
            },
            OptionsErrorView::NotANumber(flag) => "failed to parse "@ + flag.spec_name()
                + " as a number"@,
            OptionsErrorView::NotAThreshold(part) => "failed to parse APCA threshold `"@ + part + "`"@,
            OptionsErrorView::Usage => usage_text(),
        }
    }
}

impl OptionsError {
    /// The message for an error.
    pub fn message(&self) -> (message: String)
        ensures
            message@ == self@.message(),
    {
        let mut chars: Vec<char> = Vec::new();
        match self {
            OptionsError::MissingValue(flag) => {
                match *flag {
                    Flag::OutputDir => text::push_text(&mut chars, "expected directory after "),
                    Flag::StackUpstreamApcaThresholds
                    | Flag::StackAutoBackgroundApcaThresholds
                    | Flag::StackAutoAdjacentOklabThresholds => text::push_text(
                        &mut chars,
                        "expected comma-separated thresholds after ",
                    ),
                    _ => text::push_text(&mut chars, "expected threshold after "),
                }
                text::push_text(&mut chars, flag.name());
            },
            OptionsError::NotANumber(flag) => {
                text::push_text(&mut chars, "failed to parse ");
                text::push_text(&mut chars, flag.name());
                text::push_text(&mut chars, " as a number");
            },
            OptionsError::NotAThreshold(part) => {
                text::push_text(&mut chars, "failed to parse APCA threshold `");
                text::push_text(&mut chars, part.as_str());
                text::push_text(&mut chars, "`");
            },
            OptionsError::Usage => {
                text::push_text(
                    &mut chars,
                    "usage: cargo run -p zed --features visual-tests --bin zed_bracket_contrast_capture -- [--output-dir <dir>] [--upstream-apca-threshold <value>] [--stack-upstream-apca-thresholds <comma-separated-values>] [--auto-background-apca-light-threshold <value>] [--auto-background-apca-dark-threshold <value>] [--auto-adjacent-oklab-light-threshold <value>] [--auto-adjacent-oklab-dark-threshold <value>] [--stack-auto-background-apca-thresholds <comma-separated-values>] [--stack-auto-adjacent-oklab-thresholds <comma-separated-values>] <theme.json> [theme.json ...]",
                );
            },
        }
        assert(chars@ =~= self@.message());
        text::string_of(&chars)
    }
}

/// What the tool was asked to do.
#[derive(Clone, Debug)]
pub struct Options {
    pub theme_paths: Vec<String>,
    pub output_directory: Option<String>,
    pub upstream_apca_threshold: Measure,
    pub stacked_upstream_apca_thresholds: Vec<Measure>,
    pub auto_config: AutoBracketColorizationConfig,
    pub stacked_auto_background_apca_thresholds: Vec<Measure>,
    pub stacked_auto_adjacent_oklab_thresholds: Vec<Measure>,
}

/// The options as a mathematical value.
#[verifier::ext_equal]
pub struct OptionsView {
    pub theme_paths: Seq<Seq<char>>,
    pub output_directory: Option<Seq<char>>,
    pub upstream_apca_threshold: Measure,
    pub stacked_upstream_apca_thresholds: Seq<Measure>,
    pub auto_config: AutoBracketColorizationConfig,
    pub stacked_auto_background_apca_thresholds: Seq<Measure>,
    pub stacked_auto_adjacent_oklab_thresholds: Seq<Measure>,
}

impl View for Options {
    type V = OptionsView;

    open spec fn view(&self) -> OptionsView {
        OptionsView {
            theme_paths: views(self.theme_paths@),
            output_directory: match self.output_directory {
                Some(directory) => Some(directory@),
                None => None,
            },
            upstream_apca_threshold: self.upstream_apca_threshold,
            stacked_upstream_apca_thresholds: self.stacked_upstream_apca_thresholds@,
            auto_config: self.auto_config,
            stacked_auto_background_apca_thresholds: self.stacked_auto_background_apca_thresholds@,
            stacked_auto_adjacent_oklab_thresholds: self.stacked_auto_adjacent_oklab_thresholds@,
        }
    }
}

/// The numbers of a list up to the first part that is none.
pub open spec fn parsed_list(parts: Seq<Seq<char>>, numbers: Seq<Option<Measure>>) -> Result<
    Seq<Measure>,
    OptionsErrorView,
>
    decreases parts.len(),
{
    if parts.len() == 0 {
        Ok(Seq::empty())
    } else {
        match parsed_list(parts.drop_last(), numbers.drop_last()) {
            Ok(before) => match numbers.last() {
                Some(number) => Ok(before.push(number)),
                None => Err(OptionsErrorView::NotAThreshold(parts.last())),
            },
            Err(error) => Err(error),
        }
    }
}

/// Reads a list of thresholds. The first part that is not a number is the error.
pub fn parse_threshold_list(argument: &Argument) -> (thresholds: Result<Vec<Measure>, OptionsError>)
    requires
        argument.well_formed(),
    ensures
        match (thresholds, parsed_list(threshold_parts(argument.text@), argument.list@)) {
            (Ok(thresholds), Ok(expected)) => thresholds@ == expected,
            (Err(error), Err(expected)) => error@ == expected,
            _ => false,
        },
{
    let parts: Vec<String> = split_threshold_list(argument.text.as_str());
    let ghost all = views(parts@);
    let ghost numbers = argument.list@;
    let mut thresholds: Vec<Measure> = Vec::new();
    let mut i: usize = 0;
    assert(all.take(0) =~= Seq::empty());
    while i < parts.len()
        invariant
            i <= parts@.len(),
            all == views(parts@),
            all == threshold_parts(argument.text@),
            numbers == argument.list@,
            all.len() == numbers.len(),
            parsed_list(all.take(i as int), numbers.take(i as int)) == Ok::<_, OptionsErrorView>(
                thresholds@,
            ),
        decreases parts@.len() - i,
    {
        proof {
            assert(all.take(i as int + 1).drop_last() =~= all.take(i as int));
            assert(numbers.take(i as int + 1).drop_last() =~= numbers.take(i as int));
        }
        match argument.list[i] {
            Some(number) => {
                thresholds.push(number);
            },
            None => {
                proof {
                    lemma_list_error_stays(all, numbers, i as int + 1);
                    assert(all.take(i as int + 1).last() == parts@[i as int]@);
                }
                return Err(OptionsError::NotAThreshold(parts[i].clone()));
            },
        }
        i = i + 1;
    }
    assert(all.take(i as int) =~= all);
    assert(numbers.take(i as int) =~= numbers);
    Ok(thresholds)
}

/// An error in the first parts of a list is the error of the whole list.
proof fn lemma_list_error_stays(parts: Seq<Seq<char>>, numbers: Seq<Option<Measure>>, count: int)
    requires
        parts.len() == numbers.len(),
        0 <= count <= parts.len(),
        parsed_list(parts.take(count), numbers.take(count)) is Err,
    ensures
        parsed_list(parts, numbers) == parsed_list(parts.take(count), numbers.take(count)),
    decreases parts.len() - count,
{
    if count == parts.len() {
        assert(parts.take(count) =~= parts);
        assert(numbers.take(count) =~= numbers);
    } else {
        assert(parts.take(count + 1).drop_last() =~= parts.take(count));
        assert(numbers.take(count + 1).drop_last() =~= numbers.take(count));
        lemma_list_error_stays(parts, numbers, count + 1);
    }
}

impl OptionsView {
    /// The options before any argument is read.
    pub open spec fn initial() -> OptionsView {
        OptionsView {
            theme_paths: Seq::empty(),
            output_directory: None,
            upstream_apca_threshold: UPSTREAM_MINIMUM_APCA_CONTRAST,
            stacked_upstream_apca_thresholds: Seq::empty(),
            auto_config: AutoBracketColorizationConfig::spec_default(),
            stacked_auto_background_apca_thresholds: Seq::empty(),
            stacked_auto_adjacent_oklab_thresholds: Seq::empty(),
        }
    }

    /// The options with one flag given a value.
    pub open spec fn with(self, flag: Flag, value: Argument) -> Result<
        OptionsView,
        OptionsErrorView,
    > {
        if flag == Flag::OutputDir {
            Ok(OptionsView { output_directory: Some(value.text@), ..self })
        } else if flag.takes_list() {
            match parsed_list(threshold_parts(value.text@), value.list@) {
                Ok(list) => Ok(
                    match flag {
                        Flag::StackUpstreamApcaThresholds => OptionsView {
                            stacked_upstream_apca_thresholds: list,
                            ..self
                        },
                        Flag::StackAutoBackgroundApcaThresholds => OptionsView {
                            stacked_auto_background_apca_thresholds: list,
                            ..self
                        },
                        _ => OptionsView { stacked_auto_adjacent_oklab_thresholds: list, ..self },
                    },
                ),
                Err(error) => Err(error),
            }
        } else {
            match value.number {
                None => Err(OptionsErrorView::NotANumber(flag)),
                Some(number) => Ok(
                    match flag {
                        Flag::UpstreamApcaThreshold => OptionsView {
                            upstream_apca_threshold: number,
                            ..self
                        },
                        Flag::AutoBackgroundApcaLightThreshold => OptionsView {
                            auto_config: AutoBracketColorizationConfig {
                                minimum_background_apca_light: number,
                                ..self.auto_config
                            },
                            ..self
                        },
                        Flag::AutoBackgroundApcaDarkThreshold => OptionsView {
                            auto_config: AutoBracketColorizationConfig {
                                minimum_background_apca_dark: number,
                                ..self.auto_config
                            },
                            ..self
                        },
                        Flag::AutoAdjacentOklabLightThreshold => OptionsView {
                            auto_config: AutoBracketColorizationConfig {
                                minimum_adjacent_oklab_light: number,
                                ..self.auto_config
                            },
                            ..self
                        },
                        _ => OptionsView {
                            auto_config: AutoBracketColorizationConfig {
                                minimum_adjacent_oklab_dark: number,
                                ..self.auto_config
                            },
                            ..self
                        },
                    },
                ),
            }
        }
    }

    /// The options once the remaining arguments have been read, left to right: a
    /// flag takes the argument after it, any other argument is a theme file, and
    /// the first mistake ends the reading.
    pub open spec fn read(self, arguments: Seq<Argument>) -> Result<OptionsView, OptionsErrorView>
        decreases arguments.len(),
    {
        if arguments.len() == 0 {
            if self.theme_paths.len() == 0 {
                Err(OptionsErrorView::Usage)
            } else {
                Ok(self)
            }
        } else {
            match Flag::spec_named(arguments[0].text@) {
                None => (OptionsView {
                    theme_paths: self.theme_paths.push(arguments[0].text@),
                    ..self
                }).read(arguments.skip(1)),
                Some(flag) => if arguments.len() == 1 {
                    Err(OptionsErrorView::MissingValue(flag))
                } else {
                    match self.with(flag, arguments[1]) {
                        Ok(options) => options.read(arguments.skip(2)),
                        Err(error) => Err(error),
                    }
                },
            }
        }
    }
}

impl Options {
    /// Sets one flag.
    fn set(&mut self, flag: Flag, value: &Argument) -> (result: Result<(), OptionsError>)
        requires
            value.well_formed(),
        ensures
            match (result, old(self)@.with(flag, *value)) {
                (Ok(_), Ok(options)) => final(self)@ == options,
                (Err(error), Err(expected)) => error@ == expected,
                _ => false,
            },
    {
        match flag {
            Flag::OutputDir => {
                self.output_directory = Some(value.text.clone());
            },
            Flag::StackUpstreamApcaThresholds => {
                match parse_threshold_list(value) {
                    Ok(list) => {
                        self.stacked_upstream_apca_thresholds = list;
                    },
                    Err(error) => {
                        return Err(error);
                    },
                }
            },
            Flag::StackAutoBackgroundApcaThresholds => {
                match parse_threshold_list(value) {
                    Ok(list) => {
                        self.stacked_auto_background_apca_thresholds = list;
                    },
                    Err(error) => {
                        return Err(error);
                    },
                }
            },
            Flag::StackAutoAdjacentOklabThresholds => {
                match parse_threshold_list(value) {
                    Ok(list) => {
                        self.stacked_auto_adjacent_oklab_thresholds = list;
                    },
                    Err(error) => {
                        return Err(error);
                    },
                }
            },
            _ => {
                let number: Measure = match value.number {
                    Some(number) => number,
                    None => {
                        return Err(OptionsError::NotANumber(flag));
                    },
                };
                match flag {
                    Flag::UpstreamApcaThreshold => {
                        self.upstream_apca_threshold = number;
                    },
                    Flag::AutoBackgroundApcaLightThreshold => {
                        self.auto_config.minimum_background_apca_light = number;
                    },
                    Flag::AutoBackgroundApcaDarkThreshold => {
                        self.auto_config.minimum_background_apca_dark = number;
                    },
                    Flag::AutoAdjacentOklabLightThreshold => {
                        self.auto_config.minimum_adjacent_oklab_light = number;
                    },
                    _ => {
                        self.auto_config.minimum_adjacent_oklab_dark = number;
                    },
                }
            },
        }
        Ok(())
    }

    /// Reads the command line. Fails on a flag without its value, on a value that
    /// is not a number, and where no theme file is named.
    pub fn parse(arguments: &Vec<Argument>) -> (options: Result<Options, OptionsError>)
        requires
            forall|i: int| 0 <= i < arguments@.len() ==> (#[trigger] arguments@[i]).well_formed(),
        ensures
            match (options, OptionsView::initial().read(arguments@)) {
                (Ok(options), Ok(expected)) => options@ == expected,
                (Err(error), Err(expected)) => error@ == expected,
                _ => false,
            },
    {
        let mut options: Options = Options {
            theme_paths: Vec::new(),
            output_directory: None,
            upstream_apca_threshold: UPSTREAM_MINIMUM_APCA_CONTRAST,
            stacked_upstream_apca_thresholds: Vec::new(),
            auto_config: AutoBracketColorizationConfig::default(),
            stacked_auto_background_apca_thresholds: Vec::new(),
            stacked_auto_adjacent_oklab_thresholds: Vec::new(),
        };
        let ghost expected = OptionsView::initial().read(arguments@);
        let mut i: usize = 0;
        assert(arguments@.skip(0) =~= arguments@);
        assert(options@ =~= OptionsView::initial());
        while i < arguments.len()
            invariant
                i <= arguments@.len(),
                forall|k: int| 0 <= k < arguments@.len() ==> (#[trigger] arguments@[k]).well_formed(),
                expected == OptionsView::initial().read(arguments@),
                options@.read(arguments@.skip(i as int)) == expected,
            decreases arguments@.len() - i,
        {
            let ghost rest = arguments@.skip(i as int);
            let ghost before = options;
            assert(rest[0] == arguments@[i as int]);
            match Flag::named(arguments[i].text.as_str()) {
                None => {
                    options.theme_paths.push(arguments[i].text.clone());
                    proof {
                        assert(views(options.theme_paths@) =~= views(before.theme_paths@).push(
                            rest[0].text@,
                        ));
                        assert(rest.skip(1) =~= arguments@.skip(i as int + 1));
                    }
                    i = i + 1;
                },
                Some(flag) => {
                    if i + 1 == arguments.len() {
                        return Err(OptionsError::MissingValue(flag));
                    }
                    proof {
                        assert(rest[1] == arguments@[i as int + 1]);
                        assert(rest.skip(2) =~= arguments@.skip(i as int + 2));
                    }
                    if let Err(error) = options.set(flag, &arguments[i + 1]) {
                        return Err(error);
                    }
                    i = i + 2;
                },
            }
        }
        assert(arguments@.skip(i as int) =~= Seq::empty());
        if options.theme_paths.len() == 0 {
            Err(OptionsError::Usage)
        } else {
            Ok(options)
        }
    }
}

} // verus!

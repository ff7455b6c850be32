//! Getting the game ready to start: which loader, with how much memory and
//! from which directories, and what to tell the observer meanwhile.

use vstd::prelude::*;
use vstd::string::StringExecFns;
use crate::account::{chosen_auth, memory_gigabytes, AuthChoice, AuthChoiceView, UserSettings};
use crate::meta::{join, join_path, MetaDirectories};
use crate::progress::{percent, percent_of};
use crate::text::{chars_of, contains_text, find};

verus! {

/// The lowercase form of a text, as `str::to_lowercase` gives it.
pub uninterp spec fn lowercase(text: Seq<char>) -> Seq<char>;

/// Calls `str::to_lowercase`.
///
/// Trusted: the result is a function of the text alone. Which characters it
/// holds is not stated.
#[verifier::external_body]
fn to_lowercase(text: &str) -> (lower: String)
    ensures
        lower@ == lowercase(text@),
{
    text.to_lowercase()
}

/// The mod loaders that the launcher can install.
#[derive(Clone, Copy, Debug, PartialEq, Eq, Structural)]
pub enum LoaderKind {
    Fabric,
    Forge,
    Quilt,
    NeoForge,
}

/// A mod loader in a given version.
#[derive(Debug, PartialEq, Eq)]
pub struct ModLoader {
    pub kind: LoaderKind,
    pub version: String,
}

/// What a `ModLoader` means.
pub struct ModLoaderView {
    pub kind: LoaderKind,
    pub version: Seq<char>,
}

impl View for ModLoader {
    type V = ModLoaderView;

    open spec fn view(&self) -> ModLoaderView {
        ModLoaderView { kind: self.kind, version: self.version@ }
    }
}

/// The loader that a name in lower case stands for.
pub open spec fn kind_named(lower: Seq<char>) -> Option<LoaderKind> {
    if lower == "fabric"@ {
        Some(LoaderKind::Fabric)
    } else if lower == "forge"@ {
        Some(LoaderKind::Forge)
    } else if lower == "quilt"@ {
        Some(LoaderKind::Quilt)
    } else if lower == "neoforge"@ {
        Some(LoaderKind::NeoForge)
    } else {
        None
    }
}

/// The loader for a name whose lower-case form is `lower`, or the complaint
/// that there is no such loader.
pub open spec fn loader_named(lower: Seq<char>, name: Seq<char>, version: Seq<char>) -> Result<
    ModLoaderView,
    Seq<char>,
> {
    match kind_named(lower) {
        Some(kind) => Ok(ModLoaderView { kind, version }),
        None => Err("Unsupported mod loader: "@ + name),
    }
}

/// What a loader or the complaint in its place means.
pub open spec fn loader_view(loader: Result<ModLoader, String>) -> Result<ModLoaderView, Seq<char>> {
    match loader {
        Ok(found) => Ok(found@),
        Err(message) => Err(message@),
    }
}

/// Tells which loader a name in lower case stands for.
pub fn loader_kind(lower: &String) -> (kind: Option<LoaderKind>)
    ensures
        kind == kind_named(lower@),
{
    if *lower == String::from_str("fabric") {
        Some(LoaderKind::Fabric)
    } else if *lower == String::from_str("forge") {
        Some(LoaderKind::Forge)
    } else if *lower == String::from_str("quilt") {
        Some(LoaderKind::Quilt)
    } else if *lower == String::from_str("neoforge") {
        Some(LoaderKind::NeoForge)
    } else {
        None
    }
}

/// Picks the loader called `name`, whatever the case of its letters.
pub fn get_loader_by_name(name: &str, loader_version: &str) -> (loader: Result<ModLoader, String>)
    ensures
        loader_view(loader) == loader_named(lowercase(name@), name@, loader_version@),
{
    let lower = to_lowercase(name);
    match loader_kind(&lower) {
        Some(kind) => Ok(ModLoader { kind, version: String::from_str(loader_version) }),
        None => {
            let mut message = String::from_str("Unsupported mod loader: ");
            message.append(name);
            Err(message)
        },
    }
}

/// Everything that installing and starting the game needs to know.
#[derive(Debug, PartialEq, Eq)]
pub struct LaunchPlan {
    /// Where the game's shared files are kept.
    pub game_dir: String,
    pub game_version: String,
    pub auth: AuthChoice,
    pub profile_name: String,
    /// Where the instance's own files are kept.
    pub instance_dir: String,
    /// Where the Java run time is looked for.
    pub runtime_dir: String,
    pub memory_gigabytes: u16,
    pub loader: ModLoader,
}

/// What a `LaunchPlan` means.
pub struct LaunchPlanView {
    pub game_dir: Seq<char>,
    pub game_version: Seq<char>,
    pub auth: AuthChoiceView,
    pub profile_name: Seq<char>,
    pub instance_dir: Seq<char>,
    pub runtime_dir: Seq<char>,
    pub memory_gigabytes: u16,
    pub loader: ModLoaderView,
}

impl View for LaunchPlan {
    type V = LaunchPlanView;

    open spec fn view(&self) -> LaunchPlanView {
        LaunchPlanView {
            game_dir: self.game_dir@,
            game_version: self.game_version@,
            auth: self.auth@,
            profile_name: self.profile_name@,
            instance_dir: self.instance_dir@,
            runtime_dir: self.runtime_dir@,
            memory_gigabytes: self.memory_gigabytes,
            loader: self.loader@,
        }
    }
}

/// What a launch plan or the complaint in its place means.
pub open spec fn launch_view(plan: Result<LaunchPlan, String>) -> Result<LaunchPlanView, Seq<char>> {
    match plan {
        Ok(made) => Ok(made@),
        Err(message) => Err(message@),
    }
}

/// The plan for starting game version 1.20.1 with Forge 47.4.0, given the
/// loader that the name `forge` was resolved to.
pub open spec fn forge_launch(
    settings: UserSettings,
    dirs: MetaDirectories,
    loader: Result<ModLoaderView, Seq<char>>,
) -> Result<LaunchPlanView, Seq<char>> {
    match loader {
        Err(message) => Err(message),
        Ok(found) => Ok(
            LaunchPlanView {
                game_dir: dirs.meta@,
                game_version: "1.20.1"@,
                auth: chosen_auth(
                    settings.auth_method@,
                    settings.username@,
                    match settings.microsoft_account {
                        Some(account) => Some(account@),
                        None => None,
                    },
                ),
                profile_name: Seq::empty(),
                instance_dir: dirs.default_instance@,
                runtime_dir: join_path(join_path(dirs.java_versions@, "default"@), "bin"@),
                memory_gigabytes: memory_gigabytes(settings.allocated_ram),
                loader: found,
            },
        ),
    }
}

/// Draws up the launch plan from the loader that was resolved.
pub fn plan_launch(settings: &UserSettings, dirs: &MetaDirectories, loader: Result<
    ModLoader,
    String,
>) -> (plan: Result<LaunchPlan, String>)
    ensures
        launch_view(plan) == forge_launch(*settings, *dirs, loader_view(loader)),
{
    match loader {
        Err(message) => Err(message),
        Ok(found) => {
            let runtime = join(&join(&dirs.java_versions, "default"), "bin");
            Ok(
                LaunchPlan {
                    game_dir: dirs.meta.clone(),
                    game_version: String::from_str("1.20.1"),
                    auth: settings.auth_choice(),
                    profile_name: String::new(),
                    instance_dir: dirs.default_instance.clone(),
                    runtime_dir: runtime,
                    memory_gigabytes: settings.memory(),
                    loader: found,
                },
            )
        },
    }
}

/// Draws up the plan for starting the game with Forge.
pub fn launch_minecraft_with_forge(settings: &UserSettings, dirs: &MetaDirectories) -> (plan: Result<
    LaunchPlan,
    String,
>)
    ensures
        launch_view(plan) == forge_launch(
            *settings,
            *dirs,
            loader_named(lowercase("forge"@), "forge"@, "47.4.0"@),
        ),
{
    let loader = get_loader_by_name("forge", "47.4.0");
    plan_launch(settings, dirs, loader)
}

/// The digit for a value below ten.
pub open spec fn digit_char(digit: int) -> char {
    ((48 + digit) as u8) as char
}

/// `value` written in decimal.
pub open spec fn decimal_text(value: nat) -> Seq<char>
    decreases value,
{
    if value < 10 {
        seq![digit_char(value as int)]
    } else {
        decimal_text(value / 10).push(digit_char((value % 10) as int))
    }
}

fn push_decimal(text: &mut String, value: u64)
    ensures
        final(text)@ == old(text)@ + decimal_text(value as nat),
    decreases value,
{
    if value >= 10 {
        push_decimal(text, value / 10);
    }
    let digit: u8 = (value % 10) as u8;
    text.push((48u8 + digit) as char);
}

/// What the launcher hears from the installer while it works.
#[derive(Debug, PartialEq, Eq)]
pub enum LauncherSignal {
    /// So many of the game's files are there, the last of them `current_file`.
    MultipleDownloadProgress { current_file: String, current: u64, total: u64 },
    /// A line that the installer or the game printed.
    Console { line: String },
}

/// Which part of the launcher a report comes from.
#[derive(Clone, Copy, Debug, PartialEq, Eq, Structural)]
pub enum LauncherComponent {
    /// The game's own files are being downloaded.
    DownloadingGeneral,
    /// A component is being installed.
    InstallingComponent,
}

/// One report for the observer of a launch.
#[derive(Debug, PartialEq, Eq)]
pub struct LauncherProgress {
    pub message: String,
    /// Whole percent from 0 to 100; `None` when it is not known.
    pub percentage: Option<u8>,
    pub component: LauncherComponent,
    pub current: u64,
    pub total: u64,
}

/// What a `LauncherProgress` means.
pub struct LauncherProgressView {
    pub message: Seq<char>,
    pub percentage: Option<u8>,
    pub component: LauncherComponent,
    pub current: u64,
    pub total: u64,
}

impl View for LauncherProgress {
    type V = LauncherProgressView;

    open spec fn view(&self) -> LauncherProgressView {
        LauncherProgressView {
            message: self.message@,
            percentage: self.percentage,
            component: self.component,
            current: self.current,
            total: self.total,
        }
    }
}

/// The report on a signal, if it calls for one: a download count is reported
/// with its percentage; a console line is reported only if it speaks of
/// installing, and then without a percentage.
pub open spec fn report_on(signal: LauncherSignal) -> Option<LauncherProgressView> {
    match signal {
        LauncherSignal::MultipleDownloadProgress { current_file, current, total } => Some(
            LauncherProgressView {
                message: current_file@ + " ("@ + decimal_text(current as nat) + "/"@ + decimal_text(
                    total as nat,
                ) + ")"@,
                percentage: Some(percent(current as int, total as int) as u8),
                component: LauncherComponent::DownloadingGeneral,
                current,
                total,
            },
        ),
        LauncherSignal::Console { line } => {
            if contains_text(line@, "Installing"@) {
                Some(
                    LauncherProgressView {
                        message: "Installing: "@ + line@,
                        percentage: None,
                        component: LauncherComponent::InstallingComponent,
                        current: 0,
                        total: 0,
                    },
                )
            } else {
                None
            }
        },
    }
}

/// Turns a signal from the installer into the report for the observer, if
/// the signal calls for one.
pub fn create_emitter_with_progress(signal: &LauncherSignal) -> (report: Option<LauncherProgress>)
    ensures
        report_on(*signal) == match report {
            Some(made) => Some(made@),
            None => None,
        },
{
    match signal {
        LauncherSignal::MultipleDownloadProgress { current_file, current, total } => {
            let mut message = current_file.clone();
            message.append(" (");
            push_decimal(&mut message, *current);
            message.append("/");
            push_decimal(&mut message, *total);
            message.append(")");
            Some(
                LauncherProgress {
                    message,
                    percentage: Some(percent_of(*current, *total)),
                    component: LauncherComponent::DownloadingGeneral,
                    current: *current,
                    total: *total,
                },
            )
        },
        LauncherSignal::Console { line } => {
            let text = chars_of(line.as_str());
            let word = chars_of("Installing");
            match find(&text, &word, 0) {
                None => None,
                Some(_) => {
                    let mut message = String::from_str("Installing: ");
                    message.append(line.as_str());
                    Some(
                        LauncherProgress {
                            message,
                            percentage: None,
                            component: LauncherComponent::InstallingComponent,
                            current: 0,
                            total: 0,
                        },
                    )
                },
            }
        },
    }
}

impl LauncherComponent {
    /// The name under which the observer knows this component.
    pub fn name(&self) -> (name: String)
        ensures
            name@ == match *self {
                LauncherComponent::DownloadingGeneral => "downloading_minecraft_general"@,
                LauncherComponent::InstallingComponent => "installing_component"@,
            },
    {
        match self {
            LauncherComponent::DownloadingGeneral => String::from_str(
                "downloading_minecraft_general",
            ),
            LauncherComponent::InstallingComponent => String::from_str("installing_component"),
        }
    }
}

} // verus!

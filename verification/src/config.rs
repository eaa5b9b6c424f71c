//! Where the program keeps its files, and what it says of itself.

use vstd::prelude::*;
use vstd::string::*;

verus! {

/// The directory to use: the one that the environment names, else the one
/// that the platform gives this program, else the fallback.
pub open spec fn chosen_directory<P>(named: Option<P>, platform: Option<P>, fallback: P) -> P {
    match named {
        Some(directory) => directory,
        None => match platform {
            Some(directory) => directory,
            None => fallback,
        },
    }
}

/// The directory for the program's data: `data_folder` if the environment
/// names one, else the platform's data directory for this program, if the
/// platform has one, else `fallback`.
pub fn get_data_dir<P>(data_folder: Option<P>, project_data_dir: Option<P>, fallback: P) -> (directory:
    P)
    ensures
        directory == chosen_directory(data_folder, project_data_dir, fallback),
{
    if let Some(named) = data_folder {
        named
    } else if let Some(platform) = project_data_dir {
        platform
    } else {
        fallback
    }
}

/// The directory for the program's configuration: `config_folder` if the
/// environment names one, else the platform's configuration directory for
/// this program, if the platform has one, else `fallback`.
pub fn get_config_dir<P>(
    config_folder: Option<P>,
    project_config_dir: Option<P>,
    fallback: P,
) -> (directory: P)
    ensures
        directory == chosen_directory(config_folder, project_config_dir, fallback),
{
    if let Some(named) = config_folder {
        named
    } else if let Some(platform) = project_config_dir {
        platform
    } else {
        fallback
    }
}

/// The log level to use: the one that the environment names, else `info`
/// for this program.
pub open spec fn chosen_log_level(named: Option<String>, crate_name: Seq<char>) -> Seq<char> {
    match named {
        Some(level) => level@,
        None => crate_name + "=info"@,
    }
}

/// The log level to use: `named` if the environment names one, else `info`
/// for the crate `crate_name`.
pub fn log_level(named: Option<String>, crate_name: &str) -> (level: String)
    ensures
        level@ == chosen_log_level(named, crate_name@),
{
    match named {
        Some(level) => level,
        None => {
            let mut level = String::from_str(crate_name);
            level.append("=info");
            level
        },
    }
}

/// What the program says of itself.
pub open spec fn version_text(
    version_message: Seq<char>,
    author: Seq<char>,
    config_dir_path: Seq<char>,
    data_dir_path: Seq<char>,
    log_level: Seq<char>,
) -> Seq<char> {
    version_message + "\n\nAuthors: "@ + author + "\nConfig directory: "@ + config_dir_path
        + "\nData directory: "@ + data_dir_path + "\nLog level: "@ + log_level
}

/// What the program says of itself: its version, an empty line, and a line
/// each for the authors, the two directories and the log level.
pub fn version(
    version_message: &str,
    author: &str,
    config_dir_path: &str,
    data_dir_path: &str,
    log_level: &str,
) -> (text: String)
    ensures
        text@ == version_text(
            version_message@,
            author@,
            config_dir_path@,
            data_dir_path@,
            log_level@,
        ),
{
    let mut text = String::from_str(version_message);
    text.append("\n\nAuthors: ");
    text.append(author);
    text.append("\nConfig directory: ");
    text.append(config_dir_path);
    text.append("\nData directory: ");
    text.append(data_dir_path);
    text.append("\nLog level: ");
    text.append(log_level);
    text
}

} // verus!

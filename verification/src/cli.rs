//! The command line of the `livemux` tool, and the job it asks for.

use vstd::prelude::*;

use crate::batch::BatchConfig;
use crate::muxer::MuxerConfig;

verus! {

/// Command-line arguments.
pub struct Cli {
    pub command: Commands,
    /// Delete source video after muxing
    pub delete_video: bool,
    /// Overwrite original image file
    pub overwrite: bool,
    /// Keep temporary files
    pub keep_temp: bool,
    /// Enable verbose output
    pub verbose: bool,
}

/// Subcommands.
pub enum Commands {
    /// Mux a single image+video pair into a Motion Photo
    Mux { image: String, video: String, output: Option<String>, no_xmp: bool },
    /// Batch mux a directory of image+video pairs
    Dir {
        directory: String,
        output_dir: Option<String>,
        recursive: bool,
        exif_match: bool,
        incremental: bool,
        copy_unmuxed: bool,
    },
}

/// What the tool is asked to do.
pub enum Job {
    Single(MuxerConfig),
    Batch(BatchConfig),
}

impl Cli {
    /// Log level: `debug` when verbose, else `info`.
    pub fn log_level(&self) -> (r: &'static str)
        ensures
            r == (if self.verbose {
                "debug"
            } else {
                "info"
            }),
    {
        if self.verbose {
            "debug"
        } else {
            "info"
        }
    }

    /// The job the arguments describe; temporary files are deleted unless asked to keep them.
    pub fn job(self) -> (r: Job)
        ensures
            match (self.command, r) {
                (Commands::Mux { image, video, output, no_xmp }, Job::Single(c)) => {
                    &&& c.image_path == image
                    &&& c.video_path == video
                    &&& c.output_path == output
                    &&& c.output_directory is None
                    &&& c.delete_video == self.delete_video
                    &&& c.delete_temp == !self.keep_temp
                    &&& c.overwrite == self.overwrite
                    &&& c.no_xmp == no_xmp
                },
                (
                    Commands::Dir {
                        directory,
                        output_dir,
                        recursive,
                        exif_match,
                        incremental,
                        copy_unmuxed,
                    },
                    Job::Batch(c),
                ) => {
                    &&& c.directory == directory
                    &&& c.output_dir == output_dir
                    &&& c.recursive == recursive
                    &&& c.exif_match == exif_match
                    &&& c.incremental == incremental
                    &&& c.copy_unmuxed == copy_unmuxed
                    &&& c.delete_video == self.delete_video
                    &&& c.delete_temp == !self.keep_temp
                    &&& c.overwrite == self.overwrite
                },
                _ => false,
            },
    {
        match self.command {
            Commands::Mux { image, video, output, no_xmp } => Job::Single(
                MuxerConfig {
                    image_path: image,
                    video_path: video,
                    output_path: output,
                    output_directory: None,
                    delete_video: self.delete_video,
                    delete_temp: !self.keep_temp,
                    overwrite: self.overwrite,
                    no_xmp,
                },
            ),
            Commands::Dir {
                directory,
                output_dir,
                recursive,
                exif_match,
                incremental,
                copy_unmuxed,
            } => Job::Batch(
                BatchConfig {
                    directory,
                    output_dir,
                    recursive,
                    exif_match,
                    incremental,
                    copy_unmuxed,
                    delete_video: self.delete_video,
                    delete_temp: !self.keep_temp,
                    overwrite: self.overwrite,
                },
            ),
        }
    }
}

} // verus!

use vstd::prelude::*;
use vstd::string::StringExecFns;

verus! {

/// The name of the downloader's executable.
pub const PROGRAM: &'static str = "yt-dlp";

/// The flag that asks for each progress report on a line of its own.
pub const NEWLINE_FLAG: &'static str = "--newline";

/// The flag that stands before the directory for the files.
pub const DIRECTORY_FLAG: &'static str = "-P";

/// The flag that stands before the choice of streams.
pub const SELECT_FLAG: &'static str = "-f";

/// The choice of streams for a video: the best video with the best audio,
/// or else the best single file.
pub const BEST_VIDEO: &'static str = "bestvideo+bestaudio/best";

/// The flag that stands before the container to merge the streams into.
pub const MERGE_FLAG: &'static str = "--merge-output-format";

/// The container for a video.
pub const VIDEO_CONTAINER: &'static str = "mp4";

/// The flag that asks for the audio alone.
pub const EXTRACT_AUDIO_FLAG: &'static str = "-x";

/// The flag that stands before the audio format.
pub const AUDIO_FORMAT_FLAG: &'static str = "--audio-format";

/// The format for extracted audio.
pub const AUDIO_FORMAT: &'static str = "mp3";

/// The name of the video format in a history listing.
pub const VIDEO_LABEL: &'static str = "Video";

/// The name of the audio format in a history listing.
pub const AUDIO_LABEL: &'static str = "MP3";

/// What a job is to fetch.
#[derive(Clone, Copy, Debug, PartialEq, Eq, Structural)]
pub enum Format {
    /// The best video with the best audio, merged into one mp4 file.
    BestVideo,
    /// The audio alone, as an mp3 file.
    AudioOnly,
}

impl Format {
    /// The name of the format in a history listing.
    pub open spec fn label_text(self) -> Seq<char> {
        match self {
            Format::BestVideo => VIDEO_LABEL@,
            Format::AudioOnly => AUDIO_LABEL@,
        }
    }

    /// The downloader's flags that select the format.
    pub open spec fn flags(self) -> Seq<Seq<char>> {
        match self {
            Format::BestVideo => seq![SELECT_FLAG@, BEST_VIDEO@, MERGE_FLAG@, VIDEO_CONTAINER@],
            Format::AudioOnly => seq![EXTRACT_AUDIO_FLAG@, AUDIO_FORMAT_FLAG@, AUDIO_FORMAT@],
        }
    }

    /// The name of the format in a history listing.
    pub fn label(&self) -> (s: &'static str)
        ensures
            s@ == self.label_text(),
    {
        match self {
            Format::BestVideo => VIDEO_LABEL,
            Format::AudioOnly => AUDIO_LABEL,
        }
    }
}

/// What a request holds, as plain values.
pub struct RequestView {
    pub url: Seq<char>,
    pub format: Format,
    pub destination_dir: Option<Seq<char>>,
}

/// One job for the downloader: an address, a format and, where the files are
/// not to land in the working directory, the directory for them. The address
/// is never empty.
#[derive(Debug)]
pub struct DownloadRequest {
    url: String,
    format: Format,
    destination_dir: Option<String>,
}

impl View for DownloadRequest {
    type V = RequestView;

    closed spec fn view(&self) -> RequestView {
        RequestView {
            url: self.url@,
            format: self.format,
            destination_dir: match self.destination_dir {
                Some(d) => Some(d@),
                None => None,
            },
        }
    }
}

impl DownloadRequest {
    #[verifier::type_invariant]
    spec fn has_url(self) -> bool {
        self.url@.len() > 0
    }

    /// A request for `url`; none where `url` is empty.
    pub fn new(url: String, format: Format, destination_dir: Option<String>) -> (r: Option<
        DownloadRequest,
    >)
        ensures
            r is Some <==> url@.len() > 0,
            r matches Some(q) ==> q@ == (RequestView {
                url: url@,
                format,
                destination_dir: match destination_dir {
                    Some(d) => Some(d@),
                    None => None,
                },
            }),
    {
        if url.as_str().is_empty() {
            None
        } else {
            Some(DownloadRequest { url, format, destination_dir })
        }
    }

    /// The address to fetch from.
    pub fn url(&self) -> (s: &str)
        ensures
            s@ == self@.url,
            s@.len() > 0,
    {
        proof {
            use_type_invariant(self);
        }
        self.url.as_str()
    }

    /// The format to fetch.
    pub fn format(&self) -> (f: Format)
        ensures
            f == self@.format,
    {
        self.format
    }

    /// The directory for the files, where one was chosen.
    pub fn destination_dir(&self) -> (d: Option<&str>)
        ensures
            d is Some <==> self@.destination_dir is Some,
            d matches Some(s) ==> s@ == self@.destination_dir->0,
    {
        match &self.destination_dir {
            Some(d) => Some(d.as_str()),
            None => None,
        }
    }

    /// The command that runs this job.
    pub fn invocation(&self) -> (inv: Invocation)
        ensures
            inv@ == (InvocationView { program: PROGRAM@, args: arguments(self@) }),
    {
        let mut args: Vec<String> = Vec::new();
        args.push(String::from_str(NEWLINE_FLAG));
        match &self.destination_dir {
            Some(d) => {
                args.push(String::from_str(DIRECTORY_FLAG));
                args.push(d.clone());
            },
            None => {},
        }
        match self.format {
            Format::BestVideo => {
                args.push(String::from_str(SELECT_FLAG));
                args.push(String::from_str(BEST_VIDEO));
                args.push(String::from_str(MERGE_FLAG));
                args.push(String::from_str(VIDEO_CONTAINER));
            },
            Format::AudioOnly => {
                args.push(String::from_str(EXTRACT_AUDIO_FLAG));
                args.push(String::from_str(AUDIO_FORMAT_FLAG));
                args.push(String::from_str(AUDIO_FORMAT));
            },
        }
        args.push(self.url.clone());
        let inv = Invocation { program: String::from_str(PROGRAM), args };
        assert(inv@.args =~= arguments(self@));
        inv
    }
}

/// The downloader's flags that set the directory for the files.
pub open spec fn destination_flags(dir: Option<Seq<char>>) -> Seq<Seq<char>> {
    match dir {
        Some(d) => seq![DIRECTORY_FLAG@, d],
        None => Seq::empty(),
    }
}

/// The downloader's arguments for `request`: progress on lines of its own,
/// then the directory where one was chosen, then the format, and the address
/// last.
pub open spec fn arguments(request: RequestView) -> Seq<Seq<char>> {
    seq![NEWLINE_FLAG@] + destination_flags(request.destination_dir) + request.format.flags()
        + seq![request.url]
}

/// What an invocation holds, as plain values.
pub struct InvocationView {
    pub program: Seq<char>,
    pub args: Seq<Seq<char>>,
}

/// A command to run: the executable's name and its arguments in order.
#[derive(Debug, PartialEq, Eq)]
pub struct Invocation {
    pub program: String,
    pub args: Vec<String>,
}

impl View for Invocation {
    type V = InvocationView;

    open spec fn view(&self) -> InvocationView {
        InvocationView { program: self.program@, args: self.args@.map_values(|s: String| s@) }
    }
}

} // verus!

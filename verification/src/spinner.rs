use vstd::prelude::*;
use vstd::string::StringExecFns;

verus! {

/// A spinner animation: its frames, shown in turn, each for `interval_ms` milliseconds.
#[derive(PartialEq, Eq, Clone, Debug)]
pub struct SpinnerCharset {
    pub interval_ms: u64,
    pub frames: Vec<String>,
}

impl SpinnerCharset {
    /// The frames as character sequences.
    pub open spec fn frames_view(&self) -> Seq<Seq<char>> {
        self.frames@.map_values(|s: String| s@)
    }
}

/// The character sequences of `v`.
pub open spec fn strings_view(v: Seq<String>) -> Seq<Seq<char>> {
    v.map_values(|s: String| s@)
}

// The frame sets come from the cli-spinners collection (github.com/sindresorhus/cli-spinners).
impl SpinnerCharset {
    pub fn dots() -> (c: SpinnerCharset)
        ensures
            c.interval_ms == 80,
            c.frames_view() == seq!["⠋"@, "⠙"@, "⠹"@, "⠸"@, "⠼"@, "⠴"@, "⠦"@, "⠧"@, "⠇"@, "⠏"@],
    {
        let mut frames: Vec<String> = Vec::new();
        frames.push(String::from_str("⠋"));
        frames.push(String::from_str("⠙"));
        frames.push(String::from_str("⠹"));
        frames.push(String::from_str("⠸"));
        frames.push(String::from_str("⠼"));
        frames.push(String::from_str("⠴"));
        frames.push(String::from_str("⠦"));
        frames.push(String::from_str("⠧"));
        frames.push(String::from_str("⠇"));
        frames.push(String::from_str("⠏"));
        let c = SpinnerCharset { interval_ms: 80, frames };
        assert(c.frames_view() =~= seq!["⠋"@, "⠙"@, "⠹"@, "⠸"@, "⠼"@, "⠴"@, "⠦"@, "⠧"@, "⠇"@, "⠏"@]);
        c
    }

    pub fn dots2() -> (c: SpinnerCharset)
        ensures
            c.interval_ms == 80,
            c.frames_view() == seq!["⣾"@, "⣽"@, "⣻"@, "⢿"@, "⡿"@, "⣟"@, "⣯"@, "⣷"@],
    {
        let mut frames: Vec<String> = Vec::new();
        frames.push(String::from_str("⣾"));
        frames.push(String::from_str("⣽"));
        frames.push(String::from_str("⣻"));
        frames.push(String::from_str("⢿"));
        frames.push(String::from_str("⡿"));
        frames.push(String::from_str("⣟"));
        frames.push(String::from_str("⣯"));
        frames.push(String::from_str("⣷"));
        let c = SpinnerCharset { interval_ms: 80, frames };
        assert(c.frames_view() =~= seq!["⣾"@, "⣽"@, "⣻"@, "⢿"@, "⡿"@, "⣟"@, "⣯"@, "⣷"@]);
        c
    }

    pub fn dots3() -> (c: SpinnerCharset)
        ensures
            c.interval_ms == 80,
            c.frames_view() == seq!["⠋"@, "⠙"@, "⠚"@, "⠞"@, "⠖"@, "⠦"@, "⠴"@, "⠲"@, "⠳"@, "⠓"@],
    {
        let mut frames: Vec<String> = Vec::new();
        frames.push(String::from_str("⠋"));
        frames.push(String::from_str("⠙"));
        frames.push(String::from_str("⠚"));
        frames.push(String::from_str("⠞"));
        frames.push(String::from_str("⠖"));
        frames.push(String::from_str("⠦"));
        frames.push(String::from_str("⠴"));
        frames.push(String::from_str("⠲"));
        frames.push(String::from_str("⠳"));
        frames.push(String::from_str("⠓"));
        let c = SpinnerCharset { interval_ms: 80, frames };
        assert(c.frames_view() =~= seq!["⠋"@, "⠙"@, "⠚"@, "⠞"@, "⠖"@, "⠦"@, "⠴"@, "⠲"@, "⠳"@, "⠓"@]);
        c
    }

    pub fn dots4() -> (c: SpinnerCharset)
        ensures
            c.interval_ms == 80,
            c.frames_view() == seq!["⠄"@, "⠆"@, "⠇"@, "⠋"@, "⠙"@, "⠸"@, "⠰"@, "⠠"@, "⠰"@, "⠸"@, "⠙"@, "⠋"@, "⠇"@, "⠆"@],
    {
        let mut frames: Vec<String> = Vec::new();
        frames.push(String::from_str("⠄"));
        frames.push(String::from_str("⠆"));
        frames.push(String::from_str("⠇"));
        frames.push(String::from_str("⠋"));
        frames.push(String::from_str("⠙"));
        frames.push(String::from_str("⠸"));
        frames.push(String::from_str("⠰"));
        frames.push(String::from_str("⠠"));
        frames.push(String::from_str("⠰"));
        frames.push(String::from_str("⠸"));
        frames.push(String::from_str("⠙"));
        frames.push(String::from_str("⠋"));
        frames.push(String::from_str("⠇"));
        frames.push(String::from_str("⠆"));
        let c = SpinnerCharset { interval_ms: 80, frames };
        assert(c.frames_view() =~= seq!["⠄"@, "⠆"@, "⠇"@, "⠋"@, "⠙"@, "⠸"@, "⠰"@, "⠠"@, "⠰"@, "⠸"@, "⠙"@, "⠋"@, "⠇"@, "⠆"@]);
        c
    }

    pub fn dots5() -> (c: SpinnerCharset)
        ensures
            c.interval_ms == 80,
            c.frames_view() == seq!["⠋"@, "⠙"@, "⠚"@, "⠒"@, "⠂"@, "⠂"@, "⠒"@, "⠲"@, "⠴"@, "⠦"@, "⠖"@, "⠒"@, "⠐"@, "⠐"@, "⠒"@, "⠓"@, "⠋"@],
    {
        let mut frames: Vec<String> = Vec::new();
        frames.push(String::from_str("⠋"));
        frames.push(String::from_str("⠙"));
        frames.push(String::from_str("⠚"));
        frames.push(String::from_str("⠒"));
        frames.push(String::from_str("⠂"));
        frames.push(String::from_str("⠂"));
        frames.push(String::from_str("⠒"));
        frames.push(String::from_str("⠲"));
        frames.push(String::from_str("⠴"));
        frames.push(String::from_str("⠦"));
        frames.push(String::from_str("⠖"));
        frames.push(String::from_str("⠒"));
        frames.push(String::from_str("⠐"));
        frames.push(String::from_str("⠐"));
        frames.push(String::from_str("⠒"));
        frames.push(String::from_str("⠓"));
        frames.push(String::from_str("⠋"));
        let c = SpinnerCharset { interval_ms: 80, frames };
        assert(c.frames_view() =~= seq!["⠋"@, "⠙"@, "⠚"@, "⠒"@, "⠂"@, "⠂"@, "⠒"@, "⠲"@, "⠴"@, "⠦"@, "⠖"@, "⠒"@, "⠐"@, "⠐"@, "⠒"@, "⠓"@, "⠋"@]);
        c
    }

    pub fn dots6() -> (c: SpinnerCharset)
        ensures
            c.interval_ms == 80,
            c.frames_view() == seq!["⠁"@, "⠉"@, "⠙"@, "⠚"@, "⠒"@, "⠂"@, "⠂"@, "⠒"@, "⠲"@, "⠴"@, "⠤"@, "⠄"@, "⠄"@, "⠤"@, "⠴"@, "⠲"@, "⠒"@, "⠂"@, "⠂"@, "⠒"@, "⠚"@, "⠙"@, "⠉"@, "⠁"@],
    {
        let mut frames: Vec<String> = Vec::new();
        frames.push(String::from_str("⠁"));
        frames.push(String::from_str("⠉"));
        frames.push(String::from_str("⠙"));
        frames.push(String::from_str("⠚"));
        frames.push(String::from_str("⠒"));
        frames.push(String::from_str("⠂"));
        frames.push(String::from_str("⠂"));
        frames.push(String::from_str("⠒"));
        frames.push(String::from_str("⠲"));
        frames.push(String::from_str("⠴"));
        frames.push(String::from_str("⠤"));
        frames.push(String::from_str("⠄"));
        frames.push(String::from_str("⠄"));
        frames.push(String::from_str("⠤"));
        frames.push(String::from_str("⠴"));
        frames.push(String::from_str("⠲"));
        frames.push(String::from_str("⠒"));
        frames.push(String::from_str("⠂"));
        frames.push(String::from_str("⠂"));
        frames.push(String::from_str("⠒"));
        frames.push(String::from_str("⠚"));
        frames.push(String::from_str("⠙"));
        frames.push(String::from_str("⠉"));
        frames.push(String::from_str("⠁"));
        let c = SpinnerCharset { interval_ms: 80, frames };
        assert(c.frames_view() =~= seq!["⠁"@, "⠉"@, "⠙"@, "⠚"@, "⠒"@, "⠂"@, "⠂"@, "⠒"@, "⠲"@, "⠴"@, "⠤"@, "⠄"@, "⠄"@, "⠤"@, "⠴"@, "⠲"@, "⠒"@, "⠂"@, "⠂"@, "⠒"@, "⠚"@, "⠙"@, "⠉"@, "⠁"@]);
        c
    }

    pub fn dots7() -> (c: SpinnerCharset)
        ensures
            c.interval_ms == 80,
            c.frames_view() == seq!["⠈"@, "⠉"@, "⠋"@, "⠓"@, "⠒"@, "⠐"@, "⠐"@, "⠒"@, "⠖"@, "⠦"@, "⠤"@, "⠠"@, "⠠"@, "⠤"@, "⠦"@, "⠖"@, "⠒"@, "⠐"@, "⠐"@, "⠒"@, "⠓"@, "⠋"@, "⠉"@, "⠈"@],
    {
        let mut frames: Vec<String> = Vec::new();
        frames.push(String::from_str("⠈"));
        frames.push(String::from_str("⠉"));
        frames.push(String::from_str("⠋"));
        frames.push(String::from_str("⠓"));
        frames.push(String::from_str("⠒"));
        frames.push(String::from_str("⠐"));
        frames.push(String::from_str("⠐"));
        frames.push(String::from_str("⠒"));
        frames.push(String::from_str("⠖"));
        frames.push(String::from_str("⠦"));
        frames.push(String::from_str("⠤"));
        frames.push(String::from_str("⠠"));
        frames.push(String::from_str("⠠"));
        frames.push(String::from_str("⠤"));
        frames.push(String::from_str("⠦"));
        frames.push(String::from_str("⠖"));
        frames.push(String::from_str("⠒"));
        frames.push(String::from_str("⠐"));
        frames.push(String::from_str("⠐"));
        frames.push(String::from_str("⠒"));
        frames.push(String::from_str("⠓"));
        frames.push(String::from_str("⠋"));
        frames.push(String::from_str("⠉"));
        frames.push(String::from_str("⠈"));
        let c = SpinnerCharset { interval_ms: 80, frames };
        assert(c.frames_view() =~= seq!["⠈"@, "⠉"@, "⠋"@, "⠓"@, "⠒"@, "⠐"@, "⠐"@, "⠒"@, "⠖"@, "⠦"@, "⠤"@, "⠠"@, "⠠"@, "⠤"@, "⠦"@, "⠖"@, "⠒"@, "⠐"@, "⠐"@, "⠒"@, "⠓"@, "⠋"@, "⠉"@, "⠈"@]);
        c
    }

    pub fn dots8() -> (c: SpinnerCharset)
        ensures
            c.interval_ms == 80,
            c.frames_view() == seq!["⠁"@, "⠁"@, "⠉"@, "⠙"@, "⠚"@, "⠒"@, "⠂"@, "⠂"@, "⠒"@, "⠲"@, "⠴"@, "⠤"@, "⠄"@, "⠄"@, "⠤"@, "⠠"@, "⠠"@, "⠤"@, "⠦"@, "⠖"@, "⠒"@, "⠐"@, "⠐"@, "⠒"@, "⠓"@, "⠋"@, "⠉"@, "⠈"@, "⠈"@],
    {
        let mut frames: Vec<String> = Vec::new();
        frames.push(String::from_str("⠁"));
        frames.push(String::from_str("⠁"));
        frames.push(String::from_str("⠉"));
        frames.push(String::from_str("⠙"));
        frames.push(String::from_str("⠚"));
        frames.push(String::from_str("⠒"));
        frames.push(String::from_str("⠂"));
        frames.push(String::from_str("⠂"));
        frames.push(String::from_str("⠒"));
        frames.push(String::from_str("⠲"));
        frames.push(String::from_str("⠴"));
        frames.push(String::from_str("⠤"));
        frames.push(String::from_str("⠄"));
        frames.push(String::from_str("⠄"));
        frames.push(String::from_str("⠤"));
        frames.push(String::from_str("⠠"));
        frames.push(String::from_str("⠠"));
        frames.push(String::from_str("⠤"));
        frames.push(String::from_str("⠦"));
        frames.push(String::from_str("⠖"));
        frames.push(String::from_str("⠒"));
        frames.push(String::from_str("⠐"));
        frames.push(String::from_str("⠐"));
        frames.push(String::from_str("⠒"));
        frames.push(String::from_str("⠓"));
        frames.push(String::from_str("⠋"));
        frames.push(String::from_str("⠉"));
        frames.push(String::from_str("⠈"));
        frames.push(String::from_str("⠈"));
        let c = SpinnerCharset { interval_ms: 80, frames };
        assert(c.frames_view() =~= seq!["⠁"@, "⠁"@, "⠉"@, "⠙"@, "⠚"@, "⠒"@, "⠂"@, "⠂"@, "⠒"@, "⠲"@, "⠴"@, "⠤"@, "⠄"@, "⠄"@, "⠤"@, "⠠"@, "⠠"@, "⠤"@, "⠦"@, "⠖"@, "⠒"@, "⠐"@, "⠐"@, "⠒"@, "⠓"@, "⠋"@, "⠉"@, "⠈"@, "⠈"@]);
        c
    }

    pub fn dots9() -> (c: SpinnerCharset)
        ensures
            c.interval_ms == 80,
            c.frames_view() == seq!["⢹"@, "⢺"@, "⢼"@, "⣸"@, "⣇"@, "⡧"@, "⡗"@, "⡏"@],
    {
        let mut frames: Vec<String> = Vec::new();
        frames.push(String::from_str("⢹"));
        frames.push(String::from_str("⢺"));
        frames.push(String::from_str("⢼"));
        frames.push(String::from_str("⣸"));
        frames.push(String::from_str("⣇"));
        frames.push(String::from_str("⡧"));
        frames.push(String::from_str("⡗"));
        frames.push(String::from_str("⡏"));
        let c = SpinnerCharset { interval_ms: 80, frames };
        assert(c.frames_view() =~= seq!["⢹"@, "⢺"@, "⢼"@, "⣸"@, "⣇"@, "⡧"@, "⡗"@, "⡏"@]);
        c
    }

    pub fn dots10() -> (c: SpinnerCharset)
        ensures
            c.interval_ms == 80,
            c.frames_view() == seq!["⢄"@, "⢂"@, "⢁"@, "⡁"@, "⡈"@, "⡐"@, "⡠"@],
    {
        let mut frames: Vec<String> = Vec::new();
        frames.push(String::from_str("⢄"));
        frames.push(String::from_str("⢂"));
        frames.push(String::from_str("⢁"));
        frames.push(String::from_str("⡁"));
        frames.push(String::from_str("⡈"));
        frames.push(String::from_str("⡐"));
        frames.push(String::from_str("⡠"));
        let c = SpinnerCharset { interval_ms: 80, frames };
        assert(c.frames_view() =~= seq!["⢄"@, "⢂"@, "⢁"@, "⡁"@, "⡈"@, "⡐"@, "⡠"@]);
        c
    }

    pub fn dots11() -> (c: SpinnerCharset)
        ensures
            c.interval_ms == 100,
            c.frames_view() == seq!["⠁"@, "⠂"@, "⠄"@, "⡀"@, "⢀"@, "⠠"@, "⠐"@, "⠈"@],
    {
        let mut frames: Vec<String> = Vec::new();
        frames.push(String::from_str("⠁"));
        frames.push(String::from_str("⠂"));
        frames.push(String::from_str("⠄"));
        frames.push(String::from_str("⡀"));
        frames.push(String::from_str("⢀"));
        frames.push(String::from_str("⠠"));
        frames.push(String::from_str("⠐"));
        frames.push(String::from_str("⠈"));
        let c = SpinnerCharset { interval_ms: 100, frames };
        assert(c.frames_view() =~= seq!["⠁"@, "⠂"@, "⠄"@, "⡀"@, "⢀"@, "⠠"@, "⠐"@, "⠈"@]);
        c
    }

    pub fn dots12() -> (c: SpinnerCharset)
        ensures
            c.interval_ms == 80,
            c.frames_view() == seq!["⢀⠀"@, "⡀⠀"@, "⠄⠀"@, "⢂⠀"@, "⡂⠀"@, "⠅⠀"@, "⢃⠀"@, "⡃⠀"@, "⠍⠀"@, "⢋⠀"@, "⡋⠀"@, "⠍⠁"@, "⢋⠁"@, "⡋⠁"@, "⠍⠉"@, "⠋⠉"@, "⠋⠉"@, "⠉⠙"@, "⠉⠙"@, "⠉⠩"@, "⠈⢙"@, "⠈⡙"@, "⢈⠩"@, "⡀⢙"@, "⠄⡙"@, "⢂⠩"@, "⡂⢘"@, "⠅⡘"@, "⢃⠨"@, "⡃⢐"@, "⠍⡐"@, "⢋⠠"@, "⡋⢀"@, "⠍⡁"@, "⢋⠁"@, "⡋⠁"@, "⠍⠉"@, "⠋⠉"@, "⠋⠉"@, "⠉⠙"@, "⠉⠙"@, "⠉⠩"@, "⠈⢙"@, "⠈⡙"@, "⠈⠩"@, "⠀⢙"@, "⠀⡙"@, "⠀⠩"@, "⠀⢘"@, "⠀⡘"@, "⠀⠨"@, "⠀⢐"@, "⠀⡐"@, "⠀⠠"@, "⠀⢀"@, "⠀⡀"@],
    {
        let mut frames: Vec<String> = Vec::new();
        frames.push(String::from_str("⢀⠀"));
        frames.push(String::from_str("⡀⠀"));
        frames.push(String::from_str("⠄⠀"));
        frames.push(String::from_str("⢂⠀"));
        frames.push(String::from_str("⡂⠀"));
        frames.push(String::from_str("⠅⠀"));
        frames.push(String::from_str("⢃⠀"));
        frames.push(String::from_str("⡃⠀"));
        frames.push(String::from_str("⠍⠀"));
        frames.push(String::from_str("⢋⠀"));
        frames.push(String::from_str("⡋⠀"));
        frames.push(String::from_str("⠍⠁"));
        frames.push(String::from_str("⢋⠁"));
        frames.push(String::from_str("⡋⠁"));
        frames.push(String::from_str("⠍⠉"));
        frames.push(String::from_str("⠋⠉"));
        frames.push(String::from_str("⠋⠉"));
        frames.push(String::from_str("⠉⠙"));
        frames.push(String::from_str("⠉⠙"));
        frames.push(String::from_str("⠉⠩"));
        frames.push(String::from_str("⠈⢙"));
        frames.push(String::from_str("⠈⡙"));
        frames.push(String::from_str("⢈⠩"));
        frames.push(String::from_str("⡀⢙"));
        frames.push(String::from_str("⠄⡙"));
        frames.push(String::from_str("⢂⠩"));
        frames.push(String::from_str("⡂⢘"));
        frames.push(String::from_str("⠅⡘"));
        frames.push(String::from_str("⢃⠨"));
        frames.push(String::from_str("⡃⢐"));
        frames.push(String::from_str("⠍⡐"));
        frames.push(String::from_str("⢋⠠"));
        frames.push(String::from_str("⡋⢀"));
        frames.push(String::from_str("⠍⡁"));
        frames.push(String::from_str("⢋⠁"));
        frames.push(String::from_str("⡋⠁"));
        frames.push(String::from_str("⠍⠉"));
        frames.push(String::from_str("⠋⠉"));
        frames.push(String::from_str("⠋⠉"));
        frames.push(String::from_str("⠉⠙"));
        frames.push(String::from_str("⠉⠙"));
        frames.push(String::from_str("⠉⠩"));
        frames.push(String::from_str("⠈⢙"));
        frames.push(String::from_str("⠈⡙"));
        frames.push(String::from_str("⠈⠩"));
        frames.push(String::from_str("⠀⢙"));
        frames.push(String::from_str("⠀⡙"));
        frames.push(String::from_str("⠀⠩"));
        frames.push(String::from_str("⠀⢘"));
        frames.push(String::from_str("⠀⡘"));
        frames.push(String::from_str("⠀⠨"));
        frames.push(String::from_str("⠀⢐"));
        frames.push(String::from_str("⠀⡐"));
        frames.push(String::from_str("⠀⠠"));
        frames.push(String::from_str("⠀⢀"));
        frames.push(String::from_str("⠀⡀"));
        let c = SpinnerCharset { interval_ms: 80, frames };
        assert(c.frames_view() =~= seq!["⢀⠀"@, "⡀⠀"@, "⠄⠀"@, "⢂⠀"@, "⡂⠀"@, "⠅⠀"@, "⢃⠀"@, "⡃⠀"@, "⠍⠀"@, "⢋⠀"@, "⡋⠀"@, "⠍⠁"@, "⢋⠁"@, "⡋⠁"@, "⠍⠉"@, "⠋⠉"@, "⠋⠉"@, "⠉⠙"@, "⠉⠙"@, "⠉⠩"@, "⠈⢙"@, "⠈⡙"@, "⢈⠩"@, "⡀⢙"@, "⠄⡙"@, "⢂⠩"@, "⡂⢘"@, "⠅⡘"@, "⢃⠨"@, "⡃⢐"@, "⠍⡐"@, "⢋⠠"@, "⡋⢀"@, "⠍⡁"@, "⢋⠁"@, "⡋⠁"@, "⠍⠉"@, "⠋⠉"@, "⠋⠉"@, "⠉⠙"@, "⠉⠙"@, "⠉⠩"@, "⠈⢙"@, "⠈⡙"@, "⠈⠩"@, "⠀⢙"@, "⠀⡙"@, "⠀⠩"@, "⠀⢘"@, "⠀⡘"@, "⠀⠨"@, "⠀⢐"@, "⠀⡐"@, "⠀⠠"@, "⠀⢀"@, "⠀⡀"@]);
        c
    }

    pub fn dots13() -> (c: SpinnerCharset)
        ensures
            c.interval_ms == 80,
            c.frames_view() == seq!["⣼"@, "⣹"@, "⢻"@, "⠿"@, "⡟"@, "⣏"@, "⣧"@, "⣶"@],
    {
        let mut frames: Vec<String> = Vec::new();
        frames.push(String::from_str("⣼"));
        frames.push(String::from_str("⣹"));
        frames.push(String::from_str("⢻"));
        frames.push(String::from_str("⠿"));
        frames.push(String::from_str("⡟"));
        frames.push(String::from_str("⣏"));
        frames.push(String::from_str("⣧"));
        frames.push(String::from_str("⣶"));
        let c = SpinnerCharset { interval_ms: 80, frames };
        assert(c.frames_view() =~= seq!["⣼"@, "⣹"@, "⢻"@, "⠿"@, "⡟"@, "⣏"@, "⣧"@, "⣶"@]);
        c
    }

    pub fn dots14() -> (c: SpinnerCharset)
        ensures
            c.interval_ms == 80,
            c.frames_view() == seq!["⠉⠉"@, "⠈⠙"@, "⠀⠹"@, "⠀⢸"@, "⠀⣰"@, "⢀⣠"@, "⣀⣀"@, "⣄⡀"@, "⣆⠀"@, "⡇⠀"@, "⠏⠀"@, "⠋⠁"@],
    {
        let mut frames: Vec<String> = Vec::new();
        frames.push(String::from_str("⠉⠉"));
        frames.push(String::from_str("⠈⠙"));
        frames.push(String::from_str("⠀⠹"));
        frames.push(String::from_str("⠀⢸"));
        frames.push(String::from_str("⠀⣰"));
        frames.push(String::from_str("⢀⣠"));
        frames.push(String::from_str("⣀⣀"));
        frames.push(String::from_str("⣄⡀"));
        frames.push(String::from_str("⣆⠀"));
        frames.push(String::from_str("⡇⠀"));
        frames.push(String::from_str("⠏⠀"));
        frames.push(String::from_str("⠋⠁"));
        let c = SpinnerCharset { interval_ms: 80, frames };
        assert(c.frames_view() =~= seq!["⠉⠉"@, "⠈⠙"@, "⠀⠹"@, "⠀⢸"@, "⠀⣰"@, "⢀⣠"@, "⣀⣀"@, "⣄⡀"@, "⣆⠀"@, "⡇⠀"@, "⠏⠀"@, "⠋⠁"@]);
        c
    }

    pub fn dots8bit() -> (c: SpinnerCharset)
        ensures
            c.interval_ms == 80,
            c.frames_view() == seq!["⠀"@, "⠁"@, "⠂"@, "⠃"@, "⠄"@, "⠅"@, "⠆"@, "⠇"@, "⡀"@, "⡁"@, "⡂"@, "⡃"@, "⡄"@, "⡅"@, "⡆"@, "⡇"@, "⠈"@, "⠉"@, "⠊"@, "⠋"@, "⠌"@, "⠍"@, "⠎"@, "⠏"@, "⡈"@, "⡉"@, "⡊"@, "⡋"@, "⡌"@, "⡍"@, "⡎"@, "⡏"@, "⠐"@, "⠑"@, "⠒"@, "⠓"@, "⠔"@, "⠕"@, "⠖"@, "⠗"@, "⡐"@, "⡑"@, "⡒"@, "⡓"@, "⡔"@, "⡕"@, "⡖"@, "⡗"@, "⠘"@, "⠙"@, "⠚"@, "⠛"@, "⠜"@, "⠝"@, "⠞"@, "⠟"@, "⡘"@, "⡙"@, "⡚"@, "⡛"@, "⡜"@, "⡝"@, "⡞"@, "⡟"@] + seq!["⠠"@, "⠡"@, "⠢"@, "⠣"@, "⠤"@, "⠥"@, "⠦"@, "⠧"@, "⡠"@, "⡡"@, "⡢"@, "⡣"@, "⡤"@, "⡥"@, "⡦"@, "⡧"@, "⠨"@, "⠩"@, "⠪"@, "⠫"@, "⠬"@, "⠭"@, "⠮"@, "⠯"@, "⡨"@, "⡩"@, "⡪"@, "⡫"@, "⡬"@, "⡭"@, "⡮"@, "⡯"@, "⠰"@, "⠱"@, "⠲"@, "⠳"@, "⠴"@, "⠵"@, "⠶"@, "⠷"@, "⡰"@, "⡱"@, "⡲"@, "⡳"@, "⡴"@, "⡵"@, "⡶"@, "⡷"@, "⠸"@, "⠹"@, "⠺"@, "⠻"@, "⠼"@, "⠽"@, "⠾"@, "⠿"@, "⡸"@, "⡹"@, "⡺"@, "⡻"@, "⡼"@, "⡽"@, "⡾"@, "⡿"@] + seq!["⢀"@, "⢁"@, "⢂"@, "⢃"@, "⢄"@, "⢅"@, "⢆"@, "⢇"@, "⣀"@, "⣁"@, "⣂"@, "⣃"@, "⣄"@, "⣅"@, "⣆"@, "⣇"@, "⢈"@, "⢉"@, "⢊"@, "⢋"@, "⢌"@, "⢍"@, "⢎"@, "⢏"@, "⣈"@, "⣉"@, "⣊"@, "⣋"@, "⣌"@, "⣍"@, "⣎"@, "⣏"@, "⢐"@, "⢑"@, "⢒"@, "⢓"@, "⢔"@, "⢕"@, "⢖"@, "⢗"@, "⣐"@, "⣑"@, "⣒"@, "⣓"@, "⣔"@, "⣕"@, "⣖"@, "⣗"@, "⢘"@, "⢙"@, "⢚"@, "⢛"@, "⢜"@, "⢝"@, "⢞"@, "⢟"@, "⣘"@, "⣙"@, "⣚"@, "⣛"@, "⣜"@, "⣝"@, "⣞"@, "⣟"@] + seq!["⢠"@, "⢡"@, "⢢"@, "⢣"@, "⢤"@, "⢥"@, "⢦"@, "⢧"@, "⣠"@, "⣡"@, "⣢"@, "⣣"@, "⣤"@, "⣥"@, "⣦"@, "⣧"@, "⢨"@, "⢩"@, "⢪"@, "⢫"@, "⢬"@, "⢭"@, "⢮"@, "⢯"@, "⣨"@, "⣩"@, "⣪"@, "⣫"@, "⣬"@, "⣭"@, "⣮"@, "⣯"@, "⢰"@, "⢱"@, "⢲"@, "⢳"@, "⢴"@, "⢵"@, "⢶"@, "⢷"@, "⣰"@, "⣱"@, "⣲"@, "⣳"@, "⣴"@, "⣵"@, "⣶"@, "⣷"@, "⢸"@, "⢹"@, "⢺"@, "⢻"@, "⢼"@, "⢽"@, "⢾"@, "⢿"@, "⣸"@, "⣹"@, "⣺"@, "⣻"@, "⣼"@, "⣽"@, "⣾"@, "⣿"@],
    {
        let part0 = dots8bit_frames_0();
        let part1 = dots8bit_frames_1();
        let part2 = dots8bit_frames_2();
        let part3 = dots8bit_frames_3();
        let mut frames = part0;
        let mut p1 = part1;
        let ghost before1 = frames@;
        frames.append(&mut p1);
        let mut p2 = part2;
        let ghost before2 = frames@;
        frames.append(&mut p2);
        let mut p3 = part3;
        let ghost before3 = frames@;
        frames.append(&mut p3);
        let c = SpinnerCharset { interval_ms: 80, frames };
        assert(c.frames_view() =~= seq!["⠀"@, "⠁"@, "⠂"@, "⠃"@, "⠄"@, "⠅"@, "⠆"@, "⠇"@, "⡀"@, "⡁"@, "⡂"@, "⡃"@, "⡄"@, "⡅"@, "⡆"@, "⡇"@, "⠈"@, "⠉"@, "⠊"@, "⠋"@, "⠌"@, "⠍"@, "⠎"@, "⠏"@, "⡈"@, "⡉"@, "⡊"@, "⡋"@, "⡌"@, "⡍"@, "⡎"@, "⡏"@, "⠐"@, "⠑"@, "⠒"@, "⠓"@, "⠔"@, "⠕"@, "⠖"@, "⠗"@, "⡐"@, "⡑"@, "⡒"@, "⡓"@, "⡔"@, "⡕"@, "⡖"@, "⡗"@, "⠘"@, "⠙"@, "⠚"@, "⠛"@, "⠜"@, "⠝"@, "⠞"@, "⠟"@, "⡘"@, "⡙"@, "⡚"@, "⡛"@, "⡜"@, "⡝"@, "⡞"@, "⡟"@] + seq!["⠠"@, "⠡"@, "⠢"@, "⠣"@, "⠤"@, "⠥"@, "⠦"@, "⠧"@, "⡠"@, "⡡"@, "⡢"@, "⡣"@, "⡤"@, "⡥"@, "⡦"@, "⡧"@, "⠨"@, "⠩"@, "⠪"@, "⠫"@, "⠬"@, "⠭"@, "⠮"@, "⠯"@, "⡨"@, "⡩"@, "⡪"@, "⡫"@, "⡬"@, "⡭"@, "⡮"@, "⡯"@, "⠰"@, "⠱"@, "⠲"@, "⠳"@, "⠴"@, "⠵"@, "⠶"@, "⠷"@, "⡰"@, "⡱"@, "⡲"@, "⡳"@, "⡴"@, "⡵"@, "⡶"@, "⡷"@, "⠸"@, "⠹"@, "⠺"@, "⠻"@, "⠼"@, "⠽"@, "⠾"@, "⠿"@, "⡸"@, "⡹"@, "⡺"@, "⡻"@, "⡼"@, "⡽"@, "⡾"@, "⡿"@] + seq!["⢀"@, "⢁"@, "⢂"@, "⢃"@, "⢄"@, "⢅"@, "⢆"@, "⢇"@, "⣀"@, "⣁"@, "⣂"@, "⣃"@, "⣄"@, "⣅"@, "⣆"@, "⣇"@, "⢈"@, "⢉"@, "⢊"@, "⢋"@, "⢌"@, "⢍"@, "⢎"@, "⢏"@, "⣈"@, "⣉"@, "⣊"@, "⣋"@, "⣌"@, "⣍"@, "⣎"@, "⣏"@, "⢐"@, "⢑"@, "⢒"@, "⢓"@, "⢔"@, "⢕"@, "⢖"@, "⢗"@, "⣐"@, "⣑"@, "⣒"@, "⣓"@, "⣔"@, "⣕"@, "⣖"@, "⣗"@, "⢘"@, "⢙"@, "⢚"@, "⢛"@, "⢜"@, "⢝"@, "⢞"@, "⢟"@, "⣘"@, "⣙"@, "⣚"@, "⣛"@, "⣜"@, "⣝"@, "⣞"@, "⣟"@] + seq!["⢠"@, "⢡"@, "⢢"@, "⢣"@, "⢤"@, "⢥"@, "⢦"@, "⢧"@, "⣠"@, "⣡"@, "⣢"@, "⣣"@, "⣤"@, "⣥"@, "⣦"@, "⣧"@, "⢨"@, "⢩"@, "⢪"@, "⢫"@, "⢬"@, "⢭"@, "⢮"@, "⢯"@, "⣨"@, "⣩"@, "⣪"@, "⣫"@, "⣬"@, "⣭"@, "⣮"@, "⣯"@, "⢰"@, "⢱"@, "⢲"@, "⢳"@, "⢴"@, "⢵"@, "⢶"@, "⢷"@, "⣰"@, "⣱"@, "⣲"@, "⣳"@, "⣴"@, "⣵"@, "⣶"@, "⣷"@, "⢸"@, "⢹"@, "⢺"@, "⢻"@, "⢼"@, "⢽"@, "⢾"@, "⢿"@, "⣸"@, "⣹"@, "⣺"@, "⣻"@, "⣼"@, "⣽"@, "⣾"@, "⣿"@]);
        c
    }

    pub fn dots_circle() -> (c: SpinnerCharset)
        ensures
            c.interval_ms == 80,
            c.frames_view() == seq!["⢎ "@, "⠎⠁"@, "⠊⠑"@, "⠈⠱"@, " ⡱"@, "⢀⡰"@, "⢄⡠"@, "⢆⡀"@],
    {
        let mut frames: Vec<String> = Vec::new();
        frames.push(String::from_str("⢎ "));
        frames.push(String::from_str("⠎⠁"));
        frames.push(String::from_str("⠊⠑"));
        frames.push(String::from_str("⠈⠱"));
        frames.push(String::from_str(" ⡱"));
        frames.push(String::from_str("⢀⡰"));
        frames.push(String::from_str("⢄⡠"));
        frames.push(String::from_str("⢆⡀"));
        let c = SpinnerCharset { interval_ms: 80, frames };
        assert(c.frames_view() =~= seq!["⢎ "@, "⠎⠁"@, "⠊⠑"@, "⠈⠱"@, " ⡱"@, "⢀⡰"@, "⢄⡠"@, "⢆⡀"@]);
        c
    }

    pub fn sand() -> (c: SpinnerCharset)
        ensures
            c.interval_ms == 80,
            c.frames_view() == seq!["⠁"@, "⠂"@, "⠄"@, "⡀"@, "⡈"@, "⡐"@, "⡠"@, "⣀"@, "⣁"@, "⣂"@, "⣄"@, "⣌"@, "⣔"@, "⣤"@, "⣥"@, "⣦"@, "⣮"@, "⣶"@, "⣷"@, "⣿"@, "⡿"@, "⠿"@, "⢟"@, "⠟"@, "⡛"@, "⠛"@, "⠫"@, "⢋"@, "⠋"@, "⠍"@, "⡉"@, "⠉"@, "⠑"@, "⠡"@, "⢁"@],
    {
        let mut frames: Vec<String> = Vec::new();
        frames.push(String::from_str("⠁"));
        frames.push(String::from_str("⠂"));
        frames.push(String::from_str("⠄"));
        frames.push(String::from_str("⡀"));
        frames.push(String::from_str("⡈"));
        frames.push(String::from_str("⡐"));
        frames.push(String::from_str("⡠"));
        frames.push(String::from_str("⣀"));
        frames.push(String::from_str("⣁"));
        frames.push(String::from_str("⣂"));
        frames.push(String::from_str("⣄"));
        frames.push(String::from_str("⣌"));
        frames.push(String::from_str("⣔"));
        frames.push(String::from_str("⣤"));
        frames.push(String::from_str("⣥"));
        frames.push(String::from_str("⣦"));
        frames.push(String::from_str("⣮"));
        frames.push(String::from_str("⣶"));
        frames.push(String::from_str("⣷"));
        frames.push(String::from_str("⣿"));
        frames.push(String::from_str("⡿"));
        frames.push(String::from_str("⠿"));
        frames.push(String::from_str("⢟"));
        frames.push(String::from_str("⠟"));
        frames.push(String::from_str("⡛"));
        frames.push(String::from_str("⠛"));
        frames.push(String::from_str("⠫"));
        frames.push(String::from_str("⢋"));
        frames.push(String::from_str("⠋"));
        frames.push(String::from_str("⠍"));
        frames.push(String::from_str("⡉"));
        frames.push(String::from_str("⠉"));
        frames.push(String::from_str("⠑"));
        frames.push(String::from_str("⠡"));
        frames.push(String::from_str("⢁"));
        let c = SpinnerCharset { interval_ms: 80, frames };
        assert(c.frames_view() =~= seq!["⠁"@, "⠂"@, "⠄"@, "⡀"@, "⡈"@, "⡐"@, "⡠"@, "⣀"@, "⣁"@, "⣂"@, "⣄"@, "⣌"@, "⣔"@, "⣤"@, "⣥"@, "⣦"@, "⣮"@, "⣶"@, "⣷"@, "⣿"@, "⡿"@, "⠿"@, "⢟"@, "⠟"@, "⡛"@, "⠛"@, "⠫"@, "⢋"@, "⠋"@, "⠍"@, "⡉"@, "⠉"@, "⠑"@, "⠡"@, "⢁"@]);
        c
    }

    pub fn line() -> (c: SpinnerCharset)
        ensures
            c.interval_ms == 130,
            c.frames_view() == seq!["-"@, "\\"@, "|"@, "/"@],
    {
        let mut frames: Vec<String> = Vec::new();
        frames.push(String::from_str("-"));
        frames.push(String::from_str("\\"));
        frames.push(String::from_str("|"));
        frames.push(String::from_str("/"));
        let c = SpinnerCharset { interval_ms: 130, frames };
        assert(c.frames_view() =~= seq!["-"@, "\\"@, "|"@, "/"@]);
        c
    }

    pub fn line2() -> (c: SpinnerCharset)
        ensures
            c.interval_ms == 100,
            c.frames_view() == seq!["⠂"@, "-"@, "–"@, "—"@, "–"@, "-"@],
    {
        let mut frames: Vec<String> = Vec::new();
        frames.push(String::from_str("⠂"));
        frames.push(String::from_str("-"));
        frames.push(String::from_str("–"));
        frames.push(String::from_str("—"));
        frames.push(String::from_str("–"));
        frames.push(String::from_str("-"));
        let c = SpinnerCharset { interval_ms: 100, frames };
        assert(c.frames_view() =~= seq!["⠂"@, "-"@, "–"@, "—"@, "–"@, "-"@]);
        c
    }

    pub fn rolling_line() -> (c: SpinnerCharset)
        ensures
            c.interval_ms == 80,
            c.frames_view() == seq!["/  "@, " - "@, " \\ "@, "  |"@, "  |"@, " \\ "@, " - "@, "/  "@],
    {
        let mut frames: Vec<String> = Vec::new();
        frames.push(String::from_str("/  "));
        frames.push(String::from_str(" - "));
        frames.push(String::from_str(" \\ "));
        frames.push(String::from_str("  |"));
        frames.push(String::from_str("  |"));
        frames.push(String::from_str(" \\ "));
        frames.push(String::from_str(" - "));
        frames.push(String::from_str("/  "));
        let c = SpinnerCharset { interval_ms: 80, frames };
        assert(c.frames_view() =~= seq!["/  "@, " - "@, " \\ "@, "  |"@, "  |"@, " \\ "@, " - "@, "/  "@]);
        c
    }

    pub fn pipe() -> (c: SpinnerCharset)
        ensures
            c.interval_ms == 100,
            c.frames_view() == seq!["┤"@, "┘"@, "┴"@, "└"@, "├"@, "┌"@, "┬"@, "┐"@],
    {
        let mut frames: Vec<String> = Vec::new();
        frames.push(String::from_str("┤"));
        frames.push(String::from_str("┘"));
        frames.push(String::from_str("┴"));
        frames.push(String::from_str("└"));
        frames.push(String::from_str("├"));
        frames.push(String::from_str("┌"));
        frames.push(String::from_str("┬"));
        frames.push(String::from_str("┐"));
        let c = SpinnerCharset { interval_ms: 100, frames };
        assert(c.frames_view() =~= seq!["┤"@, "┘"@, "┴"@, "└"@, "├"@, "┌"@, "┬"@, "┐"@]);
        c
    }

    pub fn simple_dots() -> (c: SpinnerCharset)
        ensures
            c.interval_ms == 400,
            c.frames_view() == seq![".  "@, ".. "@, "..."@, "   "@],
    {
        let mut frames: Vec<String> = Vec::new();
        frames.push(String::from_str(".  "));
        frames.push(String::from_str(".. "));
        frames.push(String::from_str("..."));
        frames.push(String::from_str("   "));
        let c = SpinnerCharset { interval_ms: 400, frames };
        assert(c.frames_view() =~= seq![".  "@, ".. "@, "..."@, "   "@]);
        c
    }

    pub fn simple_dots_scrolling() -> (c: SpinnerCharset)
        ensures
            c.interval_ms == 200,
            c.frames_view() == seq![".  "@, ".. "@, "..."@, " .."@, "  ."@, "   "@],
    {
        let mut frames: Vec<String> = Vec::new();
        frames.push(String::from_str(".  "));
        frames.push(String::from_str(".. "));
        frames.push(String::from_str("..."));
        frames.push(String::from_str(" .."));
        frames.push(String::from_str("  ."));
        frames.push(String::from_str("   "));
        let c = SpinnerCharset { interval_ms: 200, frames };
        assert(c.frames_view() =~= seq![".  "@, ".. "@, "..."@, " .."@, "  ."@, "   "@]);
        c
    }

    pub fn star() -> (c: SpinnerCharset)
        ensures
            c.interval_ms == 70,
            c.frames_view() == seq!["✶"@, "✸"@, "✹"@, "✺"@, "✹"@, "✷"@],
    {
        let mut frames: Vec<String> = Vec::new();
        frames.push(String::from_str("✶"));
        frames.push(String::from_str("✸"));
        frames.push(String::from_str("✹"));
        frames.push(String::from_str("✺"));
        frames.push(String::from_str("✹"));
        frames.push(String::from_str("✷"));
        let c = SpinnerCharset { interval_ms: 70, frames };
        assert(c.frames_view() =~= seq!["✶"@, "✸"@, "✹"@, "✺"@, "✹"@, "✷"@]);
        c
    }

    pub fn star2() -> (c: SpinnerCharset)
        ensures
            c.interval_ms == 80,
            c.frames_view() == seq!["+"@, "x"@, "*"@],
    {
        let mut frames: Vec<String> = Vec::new();
        frames.push(String::from_str("+"));
        frames.push(String::from_str("x"));
        frames.push(String::from_str("*"));
        let c = SpinnerCharset { interval_ms: 80, frames };
        assert(c.frames_view() =~= seq!["+"@, "x"@, "*"@]);
        c
    }

    pub fn flip() -> (c: SpinnerCharset)
        ensures
            c.interval_ms == 70,
            c.frames_view() == seq!["_"@, "_"@, "_"@, "-"@, "`"@, "`"@, "'"@, "´"@, "-"@, "_"@, "_"@, "_"@],
    {
        let mut frames: Vec<String> = Vec::new();
        frames.push(String::from_str("_"));
        frames.push(String::from_str("_"));
        frames.push(String::from_str("_"));
        frames.push(String::from_str("-"));
        frames.push(String::from_str("`"));
        frames.push(String::from_str("`"));
        frames.push(String::from_str("'"));
        frames.push(String::from_str("´"));
        frames.push(String::from_str("-"));
        frames.push(String::from_str("_"));
        frames.push(String::from_str("_"));
        frames.push(String::from_str("_"));
        let c = SpinnerCharset { interval_ms: 70, frames };
        assert(c.frames_view() =~= seq!["_"@, "_"@, "_"@, "-"@, "`"@, "`"@, "'"@, "´"@, "-"@, "_"@, "_"@, "_"@]);
        c
    }

    pub fn hamburger() -> (c: SpinnerCharset)
        ensures
            c.interval_ms == 100,
            c.frames_view() == seq!["☱"@, "☲"@, "☴"@],
    {
        let mut frames: Vec<String> = Vec::new();
        frames.push(String::from_str("☱"));
        frames.push(String::from_str("☲"));
        frames.push(String::from_str("☴"));
        let c = SpinnerCharset { interval_ms: 100, frames };
        assert(c.frames_view() =~= seq!["☱"@, "☲"@, "☴"@]);
        c
    }

    pub fn grow_vertical() -> (c: SpinnerCharset)
        ensures
            c.interval_ms == 120,
            c.frames_view() == seq!["▁"@, "▃"@, "▄"@, "▅"@, "▆"@, "▇"@, "▆"@, "▅"@, "▄"@, "▃"@],
    {
        let mut frames: Vec<String> = Vec::new();
        frames.push(String::from_str("▁"));
        frames.push(String::from_str("▃"));
        frames.push(String::from_str("▄"));
        frames.push(String::from_str("▅"));
        frames.push(String::from_str("▆"));
        frames.push(String::from_str("▇"));
        frames.push(String::from_str("▆"));
        frames.push(String::from_str("▅"));
        frames.push(String::from_str("▄"));
        frames.push(String::from_str("▃"));
        let c = SpinnerCharset { interval_ms: 120, frames };
        assert(c.frames_view() =~= seq!["▁"@, "▃"@, "▄"@, "▅"@, "▆"@, "▇"@, "▆"@, "▅"@, "▄"@, "▃"@]);
        c
    }

    pub fn grow_horizontal() -> (c: SpinnerCharset)
        ensures
            c.interval_ms == 120,
            c.frames_view() == seq!["▏"@, "▎"@, "▍"@, "▌"@, "▋"@, "▊"@, "▉"@, "▊"@, "▋"@, "▌"@, "▍"@, "▎"@],
    {
        let mut frames: Vec<String> = Vec::new();
        frames.push(String::from_str("▏"));
        frames.push(String::from_str("▎"));
        frames.push(String::from_str("▍"));
        frames.push(String::from_str("▌"));
        frames.push(String::from_str("▋"));
        frames.push(String::from_str("▊"));
        frames.push(String::from_str("▉"));
        frames.push(String::from_str("▊"));
        frames.push(String::from_str("▋"));
        frames.push(String::from_str("▌"));
        frames.push(String::from_str("▍"));
        frames.push(String::from_str("▎"));
        let c = SpinnerCharset { interval_ms: 120, frames };
        assert(c.frames_view() =~= seq!["▏"@, "▎"@, "▍"@, "▌"@, "▋"@, "▊"@, "▉"@, "▊"@, "▋"@, "▌"@, "▍"@, "▎"@]);
        c
    }

    pub fn balloon() -> (c: SpinnerCharset)
        ensures
            c.interval_ms == 140,
            c.frames_view() == seq![" "@, "."@, "o"@, "O"@, "@"@, "*"@, " "@],
    {
        let mut frames: Vec<String> = Vec::new();
        frames.push(String::from_str(" "));
        frames.push(String::from_str("."));
        frames.push(String::from_str("o"));
        frames.push(String::from_str("O"));
        frames.push(String::from_str("@"));
        frames.push(String::from_str("*"));
        frames.push(String::from_str(" "));
        let c = SpinnerCharset { interval_ms: 140, frames };
        assert(c.frames_view() =~= seq![" "@, "."@, "o"@, "O"@, "@"@, "*"@, " "@]);
        c
    }

    pub fn balloon2() -> (c: SpinnerCharset)
        ensures
            c.interval_ms == 120,
            c.frames_view() == seq!["."@, "o"@, "O"@, "°"@, "O"@, "o"@, "."@],
    {
        let mut frames: Vec<String> = Vec::new();
        frames.push(String::from_str("."));
        frames.push(String::from_str("o"));
        frames.push(String::from_str("O"));
        frames.push(String::from_str("°"));
        frames.push(String::from_str("O"));
        frames.push(String::from_str("o"));
        frames.push(String::from_str("."));
        let c = SpinnerCharset { interval_ms: 120, frames };
        assert(c.frames_view() =~= seq!["."@, "o"@, "O"@, "°"@, "O"@, "o"@, "."@]);
        c
    }

    pub fn noise() -> (c: SpinnerCharset)
        ensures
            c.interval_ms == 100,
            c.frames_view() == seq!["▓"@, "▒"@, "░"@],
    {
        let mut frames: Vec<String> = Vec::new();
        frames.push(String::from_str("▓"));
        frames.push(String::from_str("▒"));
        frames.push(String::from_str("░"));
        let c = SpinnerCharset { interval_ms: 100, frames };
        assert(c.frames_view() =~= seq!["▓"@, "▒"@, "░"@]);
        c
    }

    pub fn bounce() -> (c: SpinnerCharset)
        ensures
            c.interval_ms == 120,
            c.frames_view() == seq!["⠁"@, "⠂"@, "⠄"@, "⠂"@],
    {
        let mut frames: Vec<String> = Vec::new();
        frames.push(String::from_str("⠁"));
        frames.push(String::from_str("⠂"));
        frames.push(String::from_str("⠄"));
        frames.push(String::from_str("⠂"));
        let c = SpinnerCharset { interval_ms: 120, frames };
        assert(c.frames_view() =~= seq!["⠁"@, "⠂"@, "⠄"@, "⠂"@]);
        c
    }

    pub fn box_bounce() -> (c: SpinnerCharset)
        ensures
            c.interval_ms == 120,
            c.frames_view() == seq!["▖"@, "▘"@, "▝"@, "▗"@],
    {
        let mut frames: Vec<String> = Vec::new();
        frames.push(String::from_str("▖"));
        frames.push(String::from_str("▘"));
        frames.push(String::from_str("▝"));
        frames.push(String::from_str("▗"));
        let c = SpinnerCharset { interval_ms: 120, frames };
        assert(c.frames_view() =~= seq!["▖"@, "▘"@, "▝"@, "▗"@]);
        c
    }

    pub fn box_bounce2() -> (c: SpinnerCharset)
        ensures
            c.interval_ms == 100,
            c.frames_view() == seq!["▌"@, "▀"@, "▐"@, "▄"@],
    {
        let mut frames: Vec<String> = Vec::new();
        frames.push(String::from_str("▌"));
        frames.push(String::from_str("▀"));
        frames.push(String::from_str("▐"));
        frames.push(String::from_str("▄"));
        let c = SpinnerCharset { interval_ms: 100, frames };
        assert(c.frames_view() =~= seq!["▌"@, "▀"@, "▐"@, "▄"@]);
        c
    }

    pub fn triangle() -> (c: SpinnerCharset)
        ensures
            c.interval_ms == 50,
            c.frames_view() == seq!["◢"@, "◣"@, "◤"@, "◥"@],
    {
        let mut frames: Vec<String> = Vec::new();
        frames.push(String::from_str("◢"));
        frames.push(String::from_str("◣"));
        frames.push(String::from_str("◤"));
        frames.push(String::from_str("◥"));
        let c = SpinnerCharset { interval_ms: 50, frames };
        assert(c.frames_view() =~= seq!["◢"@, "◣"@, "◤"@, "◥"@]);
        c
    }

    pub fn binary() -> (c: SpinnerCharset)
        ensures
            c.interval_ms == 80,
            c.frames_view() == seq!["010010"@, "001100"@, "100101"@, "111010"@, "111101"@, "010111"@, "101011"@, "111000"@, "110011"@, "110101"@],
    {
        let mut frames: Vec<String> = Vec::new();
        frames.push(String::from_str("010010"));
        frames.push(String::from_str("001100"));
        frames.push(String::from_str("100101"));
        frames.push(String::from_str("111010"));
        frames.push(String::from_str("111101"));
        frames.push(String::from_str("010111"));
        frames.push(String::from_str("101011"));
        frames.push(String::from_str("111000"));
        frames.push(String::from_str("110011"));
        frames.push(String::from_str("110101"));
        let c = SpinnerCharset { interval_ms: 80, frames };
        assert(c.frames_view() =~= seq!["010010"@, "001100"@, "100101"@, "111010"@, "111101"@, "010111"@, "101011"@, "111000"@, "110011"@, "110101"@]);
        c
    }

    pub fn arc() -> (c: SpinnerCharset)
        ensures
            c.interval_ms == 100,
            c.frames_view() == seq!["◜"@, "◠"@, "◝"@, "◞"@, "◡"@, "◟"@],
    {
        let mut frames: Vec<String> = Vec::new();
        frames.push(String::from_str("◜"));
        frames.push(String::from_str("◠"));
        frames.push(String::from_str("◝"));
        frames.push(String::from_str("◞"));
        frames.push(String::from_str("◡"));
        frames.push(String::from_str("◟"));
        let c = SpinnerCharset { interval_ms: 100, frames };
        assert(c.frames_view() =~= seq!["◜"@, "◠"@, "◝"@, "◞"@, "◡"@, "◟"@]);
        c
    }

    pub fn circle() -> (c: SpinnerCharset)
        ensures
            c.interval_ms == 120,
            c.frames_view() == seq!["◡"@, "⊙"@, "◠"@],
    {
        let mut frames: Vec<String> = Vec::new();
        frames.push(String::from_str("◡"));
        frames.push(String::from_str("⊙"));
        frames.push(String::from_str("◠"));
        let c = SpinnerCharset { interval_ms: 120, frames };
        assert(c.frames_view() =~= seq!["◡"@, "⊙"@, "◠"@]);
        c
    }

    pub fn square_corners() -> (c: SpinnerCharset)
        ensures
            c.interval_ms == 180,
            c.frames_view() == seq!["◰"@, "◳"@, "◲"@, "◱"@],
    {
        let mut frames: Vec<String> = Vec::new();
        frames.push(String::from_str("◰"));
        frames.push(String::from_str("◳"));
        frames.push(String::from_str("◲"));
        frames.push(String::from_str("◱"));
        let c = SpinnerCharset { interval_ms: 180, frames };
        assert(c.frames_view() =~= seq!["◰"@, "◳"@, "◲"@, "◱"@]);
        c
    }

    pub fn circle_quarters() -> (c: SpinnerCharset)
        ensures
            c.interval_ms == 120,
            c.frames_view() == seq!["◴"@, "◷"@, "◶"@, "◵"@],
    {
        let mut frames: Vec<String> = Vec::new();
        frames.push(String::from_str("◴"));
        frames.push(String::from_str("◷"));
        frames.push(String::from_str("◶"));
        frames.push(String::from_str("◵"));
        let c = SpinnerCharset { interval_ms: 120, frames };
        assert(c.frames_view() =~= seq!["◴"@, "◷"@, "◶"@, "◵"@]);
        c
    }

    pub fn circle_halves() -> (c: SpinnerCharset)
        ensures
            c.interval_ms == 50,
            c.frames_view() == seq!["◐"@, "◓"@, "◑"@, "◒"@],
    {
        let mut frames: Vec<String> = Vec::new();
        frames.push(String::from_str("◐"));
        frames.push(String::from_str("◓"));
        frames.push(String::from_str("◑"));
        frames.push(String::from_str("◒"));
        let c = SpinnerCharset { interval_ms: 50, frames };
        assert(c.frames_view() =~= seq!["◐"@, "◓"@, "◑"@, "◒"@]);
        c
    }

    pub fn squish() -> (c: SpinnerCharset)
        ensures
            c.interval_ms == 100,
            c.frames_view() == seq!["╫"@, "╪"@],
    {
        let mut frames: Vec<String> = Vec::new();
        frames.push(String::from_str("╫"));
        frames.push(String::from_str("╪"));
        let c = SpinnerCharset { interval_ms: 100, frames };
        assert(c.frames_view() =~= seq!["╫"@, "╪"@]);
        c
    }

    pub fn toggle() -> (c: SpinnerCharset)
        ensures
            c.interval_ms == 250,
            c.frames_view() == seq!["⊶"@, "⊷"@],
    {
        let mut frames: Vec<String> = Vec::new();
        frames.push(String::from_str("⊶"));
        frames.push(String::from_str("⊷"));
        let c = SpinnerCharset { interval_ms: 250, frames };
        assert(c.frames_view() =~= seq!["⊶"@, "⊷"@]);
        c
    }

    pub fn toggle2() -> (c: SpinnerCharset)
        ensures
            c.interval_ms == 80,
            c.frames_view() == seq!["▫"@, "▪"@],
    {
        let mut frames: Vec<String> = Vec::new();
        frames.push(String::from_str("▫"));
        frames.push(String::from_str("▪"));
        let c = SpinnerCharset { interval_ms: 80, frames };
        assert(c.frames_view() =~= seq!["▫"@, "▪"@]);
        c
    }

    pub fn toggle3() -> (c: SpinnerCharset)
        ensures
            c.interval_ms == 120,
            c.frames_view() == seq!["□"@, "■"@],
    {
        let mut frames: Vec<String> = Vec::new();
        frames.push(String::from_str("□"));
        frames.push(String::from_str("■"));
        let c = SpinnerCharset { interval_ms: 120, frames };
        assert(c.frames_view() =~= seq!["□"@, "■"@]);
        c
    }

    pub fn toggle4() -> (c: SpinnerCharset)
        ensures
            c.interval_ms == 100,
            c.frames_view() == seq!["■"@, "□"@, "▪"@, "▫"@],
    {
        let mut frames: Vec<String> = Vec::new();
        frames.push(String::from_str("■"));
        frames.push(String::from_str("□"));
        frames.push(String::from_str("▪"));
        frames.push(String::from_str("▫"));
        let c = SpinnerCharset { interval_ms: 100, frames };
        assert(c.frames_view() =~= seq!["■"@, "□"@, "▪"@, "▫"@]);
        c
    }

    pub fn toggle5() -> (c: SpinnerCharset)
        ensures
            c.interval_ms == 100,
            c.frames_view() == seq!["▮"@, "▯"@],
    {
        let mut frames: Vec<String> = Vec::new();
        frames.push(String::from_str("▮"));
        frames.push(String::from_str("▯"));
        let c = SpinnerCharset { interval_ms: 100, frames };
        assert(c.frames_view() =~= seq!["▮"@, "▯"@]);
        c
    }

    pub fn toggle6() -> (c: SpinnerCharset)
        ensures
            c.interval_ms == 300,
            c.frames_view() == seq!["ဝ"@, "၀"@],
    {
        let mut frames: Vec<String> = Vec::new();
        frames.push(String::from_str("ဝ"));
        frames.push(String::from_str("၀"));
        let c = SpinnerCharset { interval_ms: 300, frames };
        assert(c.frames_view() =~= seq!["ဝ"@, "၀"@]);
        c
    }

    pub fn toggle7() -> (c: SpinnerCharset)
        ensures
            c.interval_ms == 80,
            c.frames_view() == seq!["⦾"@, "⦿"@],
    {
        let mut frames: Vec<String> = Vec::new();
        frames.push(String::from_str("⦾"));
        frames.push(String::from_str("⦿"));
        let c = SpinnerCharset { interval_ms: 80, frames };
        assert(c.frames_view() =~= seq!["⦾"@, "⦿"@]);
        c
    }

    pub fn toggle8() -> (c: SpinnerCharset)
        ensures
            c.interval_ms == 100,
            c.frames_view() == seq!["◍"@, "◌"@],
    {
        let mut frames: Vec<String> = Vec::new();
        frames.push(String::from_str("◍"));
        frames.push(String::from_str("◌"));
        let c = SpinnerCharset { interval_ms: 100, frames };
        assert(c.frames_view() =~= seq!["◍"@, "◌"@]);
        c
    }

    pub fn toggle9() -> (c: SpinnerCharset)
        ensures
            c.interval_ms == 100,
            c.frames_view() == seq!["◉"@, "◎"@],
    {
        let mut frames: Vec<String> = Vec::new();
        frames.push(String::from_str("◉"));
        frames.push(String::from_str("◎"));
        let c = SpinnerCharset { interval_ms: 100, frames };
        assert(c.frames_view() =~= seq!["◉"@, "◎"@]);
        c
    }

    pub fn toggle10() -> (c: SpinnerCharset)
        ensures
            c.interval_ms == 100,
            c.frames_view() == seq!["㊂"@, "㊀"@, "㊁"@],
    {
        let mut frames: Vec<String> = Vec::new();
        frames.push(String::from_str("㊂"));
        frames.push(String::from_str("㊀"));
        frames.push(String::from_str("㊁"));
        let c = SpinnerCharset { interval_ms: 100, frames };
        assert(c.frames_view() =~= seq!["㊂"@, "㊀"@, "㊁"@]);
        c
    }

    pub fn toggle11() -> (c: SpinnerCharset)
        ensures
            c.interval_ms == 50,
            c.frames_view() == seq!["⧇"@, "⧆"@],
    {
        let mut frames: Vec<String> = Vec::new();
        frames.push(String::from_str("⧇"));
        frames.push(String::from_str("⧆"));
        let c = SpinnerCharset { interval_ms: 50, frames };
        assert(c.frames_view() =~= seq!["⧇"@, "⧆"@]);
        c
    }

    pub fn toggle12() -> (c: SpinnerCharset)
        ensures
            c.interval_ms == 120,
            c.frames_view() == seq!["☗"@, "☖"@],
    {
        let mut frames: Vec<String> = Vec::new();
        frames.push(String::from_str("☗"));
        frames.push(String::from_str("☖"));
        let c = SpinnerCharset { interval_ms: 120, frames };
        assert(c.frames_view() =~= seq!["☗"@, "☖"@]);
        c
    }

    pub fn toggle13() -> (c: SpinnerCharset)
        ensures
            c.interval_ms == 80,
            c.frames_view() == seq!["="@, "*"@, "-"@],
    {
        let mut frames: Vec<String> = Vec::new();
        frames.push(String::from_str("="));
        frames.push(String::from_str("*"));
        frames.push(String::from_str("-"));
        let c = SpinnerCharset { interval_ms: 80, frames };
        assert(c.frames_view() =~= seq!["="@, "*"@, "-"@]);
        c
    }

    pub fn arrow() -> (c: SpinnerCharset)
        ensures
            c.interval_ms == 100,
            c.frames_view() == seq!["←"@, "↖"@, "↑"@, "↗"@, "→"@, "↘"@, "↓"@, "↙"@],
    {
        let mut frames: Vec<String> = Vec::new();
        frames.push(String::from_str("←"));
        frames.push(String::from_str("↖"));
        frames.push(String::from_str("↑"));
        frames.push(String::from_str("↗"));
        frames.push(String::from_str("→"));
        frames.push(String::from_str("↘"));
        frames.push(String::from_str("↓"));
        frames.push(String::from_str("↙"));
        let c = SpinnerCharset { interval_ms: 100, frames };
        assert(c.frames_view() =~= seq!["←"@, "↖"@, "↑"@, "↗"@, "→"@, "↘"@, "↓"@, "↙"@]);
        c
    }

    pub fn arrow2() -> (c: SpinnerCharset)
        ensures
            c.interval_ms == 80,
            c.frames_view() == seq!["⬆️ "@, "↗️ "@, "➡️ "@, "↘️ "@, "⬇️ "@, "↙️ "@, "⬅️ "@, "↖️ "@],
    {
        let mut frames: Vec<String> = Vec::new();
        frames.push(String::from_str("⬆️ "));
        frames.push(String::from_str("↗️ "));
        frames.push(String::from_str("➡️ "));
        frames.push(String::from_str("↘️ "));
        frames.push(String::from_str("⬇️ "));
        frames.push(String::from_str("↙️ "));
        frames.push(String::from_str("⬅️ "));
        frames.push(String::from_str("↖️ "));
        let c = SpinnerCharset { interval_ms: 80, frames };
        assert(c.frames_view() =~= seq!["⬆️ "@, "↗️ "@, "➡️ "@, "↘️ "@, "⬇️ "@, "↙️ "@, "⬅️ "@, "↖️ "@]);
        c
    }

    pub fn arrow3() -> (c: SpinnerCharset)
        ensures
            c.interval_ms == 120,
            c.frames_view() == seq!["▹▹▹▹▹"@, "▸▹▹▹▹"@, "▹▸▹▹▹"@, "▹▹▸▹▹"@, "▹▹▹▸▹"@, "▹▹▹▹▸"@],
    {
        let mut frames: Vec<String> = Vec::new();
        frames.push(String::from_str("▹▹▹▹▹"));
        frames.push(String::from_str("▸▹▹▹▹"));
        frames.push(String::from_str("▹▸▹▹▹"));
        frames.push(String::from_str("▹▹▸▹▹"));
        frames.push(String::from_str("▹▹▹▸▹"));
        frames.push(String::from_str("▹▹▹▹▸"));
        let c = SpinnerCharset { interval_ms: 120, frames };
        assert(c.frames_view() =~= seq!["▹▹▹▹▹"@, "▸▹▹▹▹"@, "▹▸▹▹▹"@, "▹▹▸▹▹"@, "▹▹▹▸▹"@, "▹▹▹▹▸"@]);
        c
    }

    pub fn bouncing_bar() -> (c: SpinnerCharset)
        ensures
            c.interval_ms == 80,
            c.frames_view() == seq!["[    ]"@, "[=   ]"@, "[==  ]"@, "[=== ]"@, "[====]"@, "[ ===]"@, "[  ==]"@, "[   =]"@, "[    ]"@, "[   =]"@, "[  ==]"@, "[ ===]"@, "[====]"@, "[=== ]"@, "[==  ]"@, "[=   ]"@],
    {
        let mut frames: Vec<String> = Vec::new();
        frames.push(String::from_str("[    ]"));
        frames.push(String::from_str("[=   ]"));
        frames.push(String::from_str("[==  ]"));
        frames.push(String::from_str("[=== ]"));
        frames.push(String::from_str("[====]"));
        frames.push(String::from_str("[ ===]"));
        frames.push(String::from_str("[  ==]"));
        frames.push(String::from_str("[   =]"));
        frames.push(String::from_str("[    ]"));
        frames.push(String::from_str("[   =]"));
        frames.push(String::from_str("[  ==]"));
        frames.push(String::from_str("[ ===]"));
        frames.push(String::from_str("[====]"));
        frames.push(String::from_str("[=== ]"));
        frames.push(String::from_str("[==  ]"));
        frames.push(String::from_str("[=   ]"));
        let c = SpinnerCharset { interval_ms: 80, frames };
        assert(c.frames_view() =~= seq!["[    ]"@, "[=   ]"@, "[==  ]"@, "[=== ]"@, "[====]"@, "[ ===]"@, "[  ==]"@, "[   =]"@, "[    ]"@, "[   =]"@, "[  ==]"@, "[ ===]"@, "[====]"@, "[=== ]"@, "[==  ]"@, "[=   ]"@]);
        c
    }

    pub fn bouncing_ball() -> (c: SpinnerCharset)
        ensures
            c.interval_ms == 80,
            c.frames_view() == seq!["( ●    )"@, "(  ●   )"@, "(   ●  )"@, "(    ● )"@, "(     ●)"@, "(    ● )"@, "(   ●  )"@, "(  ●   )"@, "( ●    )"@, "(●     )"@],
    {
        let mut frames: Vec<String> = Vec::new();
        frames.push(String::from_str("( ●    )"));
        frames.push(String::from_str("(  ●   )"));
        frames.push(String::from_str("(   ●  )"));
        frames.push(String::from_str("(    ● )"));
        frames.push(String::from_str("(     ●)"));
        frames.push(String::from_str("(    ● )"));
        frames.push(String::from_str("(   ●  )"));
        frames.push(String::from_str("(  ●   )"));
        frames.push(String::from_str("( ●    )"));
        frames.push(String::from_str("(●     )"));
        let c = SpinnerCharset { interval_ms: 80, frames };
        assert(c.frames_view() =~= seq!["( ●    )"@, "(  ●   )"@, "(   ●  )"@, "(    ● )"@, "(     ●)"@, "(    ● )"@, "(   ●  )"@, "(  ●   )"@, "( ●    )"@, "(●     )"@]);
        c
    }

    pub fn smiley() -> (c: SpinnerCharset)
        ensures
            c.interval_ms == 200,
            c.frames_view() == seq!["😄 "@, "😝 "@],
    {
        let mut frames: Vec<String> = Vec::new();
        frames.push(String::from_str("😄 "));
        frames.push(String::from_str("😝 "));
        let c = SpinnerCharset { interval_ms: 200, frames };
        assert(c.frames_view() =~= seq!["😄 "@, "😝 "@]);
        c
    }

    pub fn monkey() -> (c: SpinnerCharset)
        ensures
            c.interval_ms == 300,
            c.frames_view() == seq!["🙈 "@, "🙈 "@, "🙉 "@, "🙊 "@],
    {
        let mut frames: Vec<String> = Vec::new();
        frames.push(String::from_str("🙈 "));
        frames.push(String::from_str("🙈 "));
        frames.push(String::from_str("🙉 "));
        frames.push(String::from_str("🙊 "));
        let c = SpinnerCharset { interval_ms: 300, frames };
        assert(c.frames_view() =~= seq!["🙈 "@, "🙈 "@, "🙉 "@, "🙊 "@]);
        c
    }

    pub fn hearts() -> (c: SpinnerCharset)
        ensures
            c.interval_ms == 100,
            c.frames_view() == seq!["💛 "@, "💙 "@, "💜 "@, "💚 "@, "💗 "@],
    {
        let mut frames: Vec<String> = Vec::new();
        frames.push(String::from_str("💛 "));
        frames.push(String::from_str("💙 "));
        frames.push(String::from_str("💜 "));
        frames.push(String::from_str("💚 "));
        frames.push(String::from_str("💗 "));
        let c = SpinnerCharset { interval_ms: 100, frames };
        assert(c.frames_view() =~= seq!["💛 "@, "💙 "@, "💜 "@, "💚 "@, "💗 "@]);
        c
    }

    pub fn clock() -> (c: SpinnerCharset)
        ensures
            c.interval_ms == 100,
            c.frames_view() == seq!["🕛 "@, "🕐 "@, "🕑 "@, "🕒 "@, "🕓 "@, "🕔 "@, "🕕 "@, "🕖 "@, "🕗 "@, "🕘 "@, "🕙 "@, "🕚 "@],
    {
        let mut frames: Vec<String> = Vec::new();
        frames.push(String::from_str("🕛 "));
        frames.push(String::from_str("🕐 "));
        frames.push(String::from_str("🕑 "));
        frames.push(String::from_str("🕒 "));
        frames.push(String::from_str("🕓 "));
        frames.push(String::from_str("🕔 "));
        frames.push(String::from_str("🕕 "));
        frames.push(String::from_str("🕖 "));
        frames.push(String::from_str("🕗 "));
        frames.push(String::from_str("🕘 "));
        frames.push(String::from_str("🕙 "));
        frames.push(String::from_str("🕚 "));
        let c = SpinnerCharset { interval_ms: 100, frames };
        assert(c.frames_view() =~= seq!["🕛 "@, "🕐 "@, "🕑 "@, "🕒 "@, "🕓 "@, "🕔 "@, "🕕 "@, "🕖 "@, "🕗 "@, "🕘 "@, "🕙 "@, "🕚 "@]);
        c
    }

    pub fn earth() -> (c: SpinnerCharset)
        ensures
            c.interval_ms == 180,
            c.frames_view() == seq!["🌍 "@, "🌎 "@, "🌏 "@],
    {
        let mut frames: Vec<String> = Vec::new();
        frames.push(String::from_str("🌍 "));
        frames.push(String::from_str("🌎 "));
        frames.push(String::from_str("🌏 "));
        let c = SpinnerCharset { interval_ms: 180, frames };
        assert(c.frames_view() =~= seq!["🌍 "@, "🌎 "@, "🌏 "@]);
        c
    }

    pub fn material() -> (c: SpinnerCharset)
        ensures
            c.interval_ms == 17,
            c.frames_view() == seq!["█▁▁▁▁▁▁▁▁▁▁▁▁▁▁▁▁▁▁▁"@, "██▁▁▁▁▁▁▁▁▁▁▁▁▁▁▁▁▁▁"@, "███▁▁▁▁▁▁▁▁▁▁▁▁▁▁▁▁▁"@, "████▁▁▁▁▁▁▁▁▁▁▁▁▁▁▁▁"@, "██████▁▁▁▁▁▁▁▁▁▁▁▁▁▁"@, "██████▁▁▁▁▁▁▁▁▁▁▁▁▁▁"@, "███████▁▁▁▁▁▁▁▁▁▁▁▁▁"@, "████████▁▁▁▁▁▁▁▁▁▁▁▁"@, "█████████▁▁▁▁▁▁▁▁▁▁▁"@, "█████████▁▁▁▁▁▁▁▁▁▁▁"@, "██████████▁▁▁▁▁▁▁▁▁▁"@, "███████████▁▁▁▁▁▁▁▁▁"@, "█████████████▁▁▁▁▁▁▁"@, "██████████████▁▁▁▁▁▁"@, "██████████████▁▁▁▁▁▁"@, "▁██████████████▁▁▁▁▁"@, "▁██████████████▁▁▁▁▁"@, "▁██████████████▁▁▁▁▁"@, "▁▁██████████████▁▁▁▁"@, "▁▁▁██████████████▁▁▁"@, "▁▁▁▁█████████████▁▁▁"@, "▁▁▁▁██████████████▁▁"@, "▁▁▁▁██████████████▁▁"@, "▁▁▁▁▁██████████████▁"@, "▁▁▁▁▁██████████████▁"@, "▁▁▁▁▁██████████████▁"@, "▁▁▁▁▁▁██████████████"@, "▁▁▁▁▁▁██████████████"@, "▁▁▁▁▁▁▁█████████████"@, "▁▁▁▁▁▁▁█████████████"@, "▁▁▁▁▁▁▁▁████████████"@, "▁▁▁▁▁▁▁▁████████████"@, "▁▁▁▁▁▁▁▁▁███████████"@, "▁▁▁▁▁▁▁▁▁███████████"@, "▁▁▁▁▁▁▁▁▁▁██████████"@, "▁▁▁▁▁▁▁▁▁▁██████████"@, "▁▁▁▁▁▁▁▁▁▁▁▁████████"@, "▁▁▁▁▁▁▁▁▁▁▁▁▁███████"@, "▁▁▁▁▁▁▁▁▁▁▁▁▁▁██████"@, "▁▁▁▁▁▁▁▁▁▁▁▁▁▁▁█████"@, "▁▁▁▁▁▁▁▁▁▁▁▁▁▁▁█████"@, "█▁▁▁▁▁▁▁▁▁▁▁▁▁▁▁████"@, "██▁▁▁▁▁▁▁▁▁▁▁▁▁▁▁███"@, "██▁▁▁▁▁▁▁▁▁▁▁▁▁▁▁███"@, "███▁▁▁▁▁▁▁▁▁▁▁▁▁▁███"@, "████▁▁▁▁▁▁▁▁▁▁▁▁▁▁██"@, "█████▁▁▁▁▁▁▁▁▁▁▁▁▁▁█"@, "█████▁▁▁▁▁▁▁▁▁▁▁▁▁▁█"@, "██████▁▁▁▁▁▁▁▁▁▁▁▁▁█"@, "████████▁▁▁▁▁▁▁▁▁▁▁▁"@, "█████████▁▁▁▁▁▁▁▁▁▁▁"@, "█████████▁▁▁▁▁▁▁▁▁▁▁"@, "█████████▁▁▁▁▁▁▁▁▁▁▁"@, "█████████▁▁▁▁▁▁▁▁▁▁▁"@, "███████████▁▁▁▁▁▁▁▁▁"@, "████████████▁▁▁▁▁▁▁▁"@, "████████████▁▁▁▁▁▁▁▁"@, "██████████████▁▁▁▁▁▁"@, "██████████████▁▁▁▁▁▁"@, "▁██████████████▁▁▁▁▁"@, "▁██████████████▁▁▁▁▁"@, "▁▁▁█████████████▁▁▁▁"@, "▁▁▁▁▁████████████▁▁▁"@, "▁▁▁▁▁████████████▁▁▁"@] + seq!["▁▁▁▁▁▁███████████▁▁▁"@, "▁▁▁▁▁▁▁▁█████████▁▁▁"@, "▁▁▁▁▁▁▁▁█████████▁▁▁"@, "▁▁▁▁▁▁▁▁▁█████████▁▁"@, "▁▁▁▁▁▁▁▁▁█████████▁▁"@, "▁▁▁▁▁▁▁▁▁▁█████████▁"@, "▁▁▁▁▁▁▁▁▁▁▁████████▁"@, "▁▁▁▁▁▁▁▁▁▁▁████████▁"@, "▁▁▁▁▁▁▁▁▁▁▁▁███████▁"@, "▁▁▁▁▁▁▁▁▁▁▁▁███████▁"@, "▁▁▁▁▁▁▁▁▁▁▁▁▁███████"@, "▁▁▁▁▁▁▁▁▁▁▁▁▁███████"@, "▁▁▁▁▁▁▁▁▁▁▁▁▁▁▁█████"@, "▁▁▁▁▁▁▁▁▁▁▁▁▁▁▁▁████"@, "▁▁▁▁▁▁▁▁▁▁▁▁▁▁▁▁████"@, "▁▁▁▁▁▁▁▁▁▁▁▁▁▁▁▁████"@, "▁▁▁▁▁▁▁▁▁▁▁▁▁▁▁▁▁███"@, "▁▁▁▁▁▁▁▁▁▁▁▁▁▁▁▁▁███"@, "▁▁▁▁▁▁▁▁▁▁▁▁▁▁▁▁▁▁██"@, "▁▁▁▁▁▁▁▁▁▁▁▁▁▁▁▁▁▁██"@, "▁▁▁▁▁▁▁▁▁▁▁▁▁▁▁▁▁▁██"@, "▁▁▁▁▁▁▁▁▁▁▁▁▁▁▁▁▁▁▁█"@, "▁▁▁▁▁▁▁▁▁▁▁▁▁▁▁▁▁▁▁█"@, "▁▁▁▁▁▁▁▁▁▁▁▁▁▁▁▁▁▁▁█"@, "▁▁▁▁▁▁▁▁▁▁▁▁▁▁▁▁▁▁▁▁"@, "▁▁▁▁▁▁▁▁▁▁▁▁▁▁▁▁▁▁▁▁"@, "▁▁▁▁▁▁▁▁▁▁▁▁▁▁▁▁▁▁▁▁"@, "▁▁▁▁▁▁▁▁▁▁▁▁▁▁▁▁▁▁▁▁"@],
    {
        let part0 = material_frames_0();
        let part1 = material_frames_1();
        let mut frames = part0;
        let mut p1 = part1;
        let ghost before1 = frames@;
        frames.append(&mut p1);
        let c = SpinnerCharset { interval_ms: 17, frames };
        assert(c.frames_view() =~= seq!["█▁▁▁▁▁▁▁▁▁▁▁▁▁▁▁▁▁▁▁"@, "██▁▁▁▁▁▁▁▁▁▁▁▁▁▁▁▁▁▁"@, "███▁▁▁▁▁▁▁▁▁▁▁▁▁▁▁▁▁"@, "████▁▁▁▁▁▁▁▁▁▁▁▁▁▁▁▁"@, "██████▁▁▁▁▁▁▁▁▁▁▁▁▁▁"@, "██████▁▁▁▁▁▁▁▁▁▁▁▁▁▁"@, "███████▁▁▁▁▁▁▁▁▁▁▁▁▁"@, "████████▁▁▁▁▁▁▁▁▁▁▁▁"@, "█████████▁▁▁▁▁▁▁▁▁▁▁"@, "█████████▁▁▁▁▁▁▁▁▁▁▁"@, "██████████▁▁▁▁▁▁▁▁▁▁"@, "███████████▁▁▁▁▁▁▁▁▁"@, "█████████████▁▁▁▁▁▁▁"@, "██████████████▁▁▁▁▁▁"@, "██████████████▁▁▁▁▁▁"@, "▁██████████████▁▁▁▁▁"@, "▁██████████████▁▁▁▁▁"@, "▁██████████████▁▁▁▁▁"@, "▁▁██████████████▁▁▁▁"@, "▁▁▁██████████████▁▁▁"@, "▁▁▁▁█████████████▁▁▁"@, "▁▁▁▁██████████████▁▁"@, "▁▁▁▁██████████████▁▁"@, "▁▁▁▁▁██████████████▁"@, "▁▁▁▁▁██████████████▁"@, "▁▁▁▁▁██████████████▁"@, "▁▁▁▁▁▁██████████████"@, "▁▁▁▁▁▁██████████████"@, "▁▁▁▁▁▁▁█████████████"@, "▁▁▁▁▁▁▁█████████████"@, "▁▁▁▁▁▁▁▁████████████"@, "▁▁▁▁▁▁▁▁████████████"@, "▁▁▁▁▁▁▁▁▁███████████"@, "▁▁▁▁▁▁▁▁▁███████████"@, "▁▁▁▁▁▁▁▁▁▁██████████"@, "▁▁▁▁▁▁▁▁▁▁██████████"@, "▁▁▁▁▁▁▁▁▁▁▁▁████████"@, "▁▁▁▁▁▁▁▁▁▁▁▁▁███████"@, "▁▁▁▁▁▁▁▁▁▁▁▁▁▁██████"@, "▁▁▁▁▁▁▁▁▁▁▁▁▁▁▁█████"@, "▁▁▁▁▁▁▁▁▁▁▁▁▁▁▁█████"@, "█▁▁▁▁▁▁▁▁▁▁▁▁▁▁▁████"@, "██▁▁▁▁▁▁▁▁▁▁▁▁▁▁▁███"@, "██▁▁▁▁▁▁▁▁▁▁▁▁▁▁▁███"@, "███▁▁▁▁▁▁▁▁▁▁▁▁▁▁███"@, "████▁▁▁▁▁▁▁▁▁▁▁▁▁▁██"@, "█████▁▁▁▁▁▁▁▁▁▁▁▁▁▁█"@, "█████▁▁▁▁▁▁▁▁▁▁▁▁▁▁█"@, "██████▁▁▁▁▁▁▁▁▁▁▁▁▁█"@, "████████▁▁▁▁▁▁▁▁▁▁▁▁"@, "█████████▁▁▁▁▁▁▁▁▁▁▁"@, "█████████▁▁▁▁▁▁▁▁▁▁▁"@, "█████████▁▁▁▁▁▁▁▁▁▁▁"@, "█████████▁▁▁▁▁▁▁▁▁▁▁"@, "███████████▁▁▁▁▁▁▁▁▁"@, "████████████▁▁▁▁▁▁▁▁"@, "████████████▁▁▁▁▁▁▁▁"@, "██████████████▁▁▁▁▁▁"@, "██████████████▁▁▁▁▁▁"@, "▁██████████████▁▁▁▁▁"@, "▁██████████████▁▁▁▁▁"@, "▁▁▁█████████████▁▁▁▁"@, "▁▁▁▁▁████████████▁▁▁"@, "▁▁▁▁▁████████████▁▁▁"@] + seq!["▁▁▁▁▁▁███████████▁▁▁"@, "▁▁▁▁▁▁▁▁█████████▁▁▁"@, "▁▁▁▁▁▁▁▁█████████▁▁▁"@, "▁▁▁▁▁▁▁▁▁█████████▁▁"@, "▁▁▁▁▁▁▁▁▁█████████▁▁"@, "▁▁▁▁▁▁▁▁▁▁█████████▁"@, "▁▁▁▁▁▁▁▁▁▁▁████████▁"@, "▁▁▁▁▁▁▁▁▁▁▁████████▁"@, "▁▁▁▁▁▁▁▁▁▁▁▁███████▁"@, "▁▁▁▁▁▁▁▁▁▁▁▁███████▁"@, "▁▁▁▁▁▁▁▁▁▁▁▁▁███████"@, "▁▁▁▁▁▁▁▁▁▁▁▁▁███████"@, "▁▁▁▁▁▁▁▁▁▁▁▁▁▁▁█████"@, "▁▁▁▁▁▁▁▁▁▁▁▁▁▁▁▁████"@, "▁▁▁▁▁▁▁▁▁▁▁▁▁▁▁▁████"@, "▁▁▁▁▁▁▁▁▁▁▁▁▁▁▁▁████"@, "▁▁▁▁▁▁▁▁▁▁▁▁▁▁▁▁▁███"@, "▁▁▁▁▁▁▁▁▁▁▁▁▁▁▁▁▁███"@, "▁▁▁▁▁▁▁▁▁▁▁▁▁▁▁▁▁▁██"@, "▁▁▁▁▁▁▁▁▁▁▁▁▁▁▁▁▁▁██"@, "▁▁▁▁▁▁▁▁▁▁▁▁▁▁▁▁▁▁██"@, "▁▁▁▁▁▁▁▁▁▁▁▁▁▁▁▁▁▁▁█"@, "▁▁▁▁▁▁▁▁▁▁▁▁▁▁▁▁▁▁▁█"@, "▁▁▁▁▁▁▁▁▁▁▁▁▁▁▁▁▁▁▁█"@, "▁▁▁▁▁▁▁▁▁▁▁▁▁▁▁▁▁▁▁▁"@, "▁▁▁▁▁▁▁▁▁▁▁▁▁▁▁▁▁▁▁▁"@, "▁▁▁▁▁▁▁▁▁▁▁▁▁▁▁▁▁▁▁▁"@, "▁▁▁▁▁▁▁▁▁▁▁▁▁▁▁▁▁▁▁▁"@]);
        c
    }

    pub fn moon() -> (c: SpinnerCharset)
        ensures
            c.interval_ms == 80,
            c.frames_view() == seq!["🌑 "@, "🌒 "@, "🌓 "@, "🌔 "@, "🌕 "@, "🌖 "@, "🌗 "@, "🌘 "@],
    {
        let mut frames: Vec<String> = Vec::new();
        frames.push(String::from_str("🌑 "));
        frames.push(String::from_str("🌒 "));
        frames.push(String::from_str("🌓 "));
        frames.push(String::from_str("🌔 "));
        frames.push(String::from_str("🌕 "));
        frames.push(String::from_str("🌖 "));
        frames.push(String::from_str("🌗 "));
        frames.push(String::from_str("🌘 "));
        let c = SpinnerCharset { interval_ms: 80, frames };
        assert(c.frames_view() =~= seq!["🌑 "@, "🌒 "@, "🌓 "@, "🌔 "@, "🌕 "@, "🌖 "@, "🌗 "@, "🌘 "@]);
        c
    }

    pub fn runner() -> (c: SpinnerCharset)
        ensures
            c.interval_ms == 140,
            c.frames_view() == seq!["🚶 "@, "🏃 "@],
    {
        let mut frames: Vec<String> = Vec::new();
        frames.push(String::from_str("🚶 "));
        frames.push(String::from_str("🏃 "));
        let c = SpinnerCharset { interval_ms: 140, frames };
        assert(c.frames_view() =~= seq!["🚶 "@, "🏃 "@]);
        c
    }

    pub fn pong() -> (c: SpinnerCharset)
        ensures
            c.interval_ms == 80,
            c.frames_view() == seq!["▐⠂       ▌"@, "▐⠈       ▌"@, "▐ ⠂      ▌"@, "▐ ⠠      ▌"@, "▐  ⡀     ▌"@, "▐  ⠠     ▌"@, "▐   ⠂    ▌"@, "▐   ⠈    ▌"@, "▐    ⠂   ▌"@, "▐    ⠠   ▌"@, "▐     ⡀  ▌"@, "▐     ⠠  ▌"@, "▐      ⠂ ▌"@, "▐      ⠈ ▌"@, "▐       ⠂▌"@, "▐       ⠠▌"@, "▐       ⡀▌"@, "▐      ⠠ ▌"@, "▐      ⠂ ▌"@, "▐     ⠈  ▌"@, "▐     ⠂  ▌"@, "▐    ⠠   ▌"@, "▐    ⡀   ▌"@, "▐   ⠠    ▌"@, "▐   ⠂    ▌"@, "▐  ⠈     ▌"@, "▐  ⠂     ▌"@, "▐ ⠠      ▌"@, "▐ ⡀      ▌"@, "▐⠠       ▌"@],
    {
        let mut frames: Vec<String> = Vec::new();
        frames.push(String::from_str("▐⠂       ▌"));
        frames.push(String::from_str("▐⠈       ▌"));
        frames.push(String::from_str("▐ ⠂      ▌"));
        frames.push(String::from_str("▐ ⠠      ▌"));
        frames.push(String::from_str("▐  ⡀     ▌"));
        frames.push(String::from_str("▐  ⠠     ▌"));
        frames.push(String::from_str("▐   ⠂    ▌"));
        frames.push(String::from_str("▐   ⠈    ▌"));
        frames.push(String::from_str("▐    ⠂   ▌"));
        frames.push(String::from_str("▐    ⠠   ▌"));
        frames.push(String::from_str("▐     ⡀  ▌"));
        frames.push(String::from_str("▐     ⠠  ▌"));
        frames.push(String::from_str("▐      ⠂ ▌"));
        frames.push(String::from_str("▐      ⠈ ▌"));
        frames.push(String::from_str("▐       ⠂▌"));
        frames.push(String::from_str("▐       ⠠▌"));
        frames.push(String::from_str("▐       ⡀▌"));
        frames.push(String::from_str("▐      ⠠ ▌"));
        frames.push(String::from_str("▐      ⠂ ▌"));
        frames.push(String::from_str("▐     ⠈  ▌"));
        frames.push(String::from_str("▐     ⠂  ▌"));
        frames.push(String::from_str("▐    ⠠   ▌"));
        frames.push(String::from_str("▐    ⡀   ▌"));
        frames.push(String::from_str("▐   ⠠    ▌"));
        frames.push(String::from_str("▐   ⠂    ▌"));
        frames.push(String::from_str("▐  ⠈     ▌"));
        frames.push(String::from_str("▐  ⠂     ▌"));
        frames.push(String::from_str("▐ ⠠      ▌"));
        frames.push(String::from_str("▐ ⡀      ▌"));
        frames.push(String::from_str("▐⠠       ▌"));
        let c = SpinnerCharset { interval_ms: 80, frames };
        assert(c.frames_view() =~= seq!["▐⠂       ▌"@, "▐⠈       ▌"@, "▐ ⠂      ▌"@, "▐ ⠠      ▌"@, "▐  ⡀     ▌"@, "▐  ⠠     ▌"@, "▐   ⠂    ▌"@, "▐   ⠈    ▌"@, "▐    ⠂   ▌"@, "▐    ⠠   ▌"@, "▐     ⡀  ▌"@, "▐     ⠠  ▌"@, "▐      ⠂ ▌"@, "▐      ⠈ ▌"@, "▐       ⠂▌"@, "▐       ⠠▌"@, "▐       ⡀▌"@, "▐      ⠠ ▌"@, "▐      ⠂ ▌"@, "▐     ⠈  ▌"@, "▐     ⠂  ▌"@, "▐    ⠠   ▌"@, "▐    ⡀   ▌"@, "▐   ⠠    ▌"@, "▐   ⠂    ▌"@, "▐  ⠈     ▌"@, "▐  ⠂     ▌"@, "▐ ⠠      ▌"@, "▐ ⡀      ▌"@, "▐⠠       ▌"@]);
        c
    }

    pub fn shark() -> (c: SpinnerCharset)
        ensures
            c.interval_ms == 120,
            c.frames_view() == seq!["▐|\\____________▌"@, "▐_|\\___________▌"@, "▐__|\\__________▌"@, "▐___|\\_________▌"@, "▐____|\\________▌"@, "▐_____|\\_______▌"@, "▐______|\\______▌"@, "▐_______|\\_____▌"@, "▐________|\\____▌"@, "▐_________|\\___▌"@, "▐__________|\\__▌"@, "▐___________|\\_▌"@, "▐____________|\\▌"@, "▐____________/|▌"@, "▐___________/|_▌"@, "▐__________/|__▌"@, "▐_________/|___▌"@, "▐________/|____▌"@, "▐_______/|_____▌"@, "▐______/|______▌"@, "▐_____/|_______▌"@, "▐____/|________▌"@, "▐___/|_________▌"@, "▐__/|__________▌"@, "▐_/|___________▌"@, "▐/|____________▌"@],
    {
        let mut frames: Vec<String> = Vec::new();
        frames.push(String::from_str("▐|\\____________▌"));
        frames.push(String::from_str("▐_|\\___________▌"));
        frames.push(String::from_str("▐__|\\__________▌"));
        frames.push(String::from_str("▐___|\\_________▌"));
        frames.push(String::from_str("▐____|\\________▌"));
        frames.push(String::from_str("▐_____|\\_______▌"));
        frames.push(String::from_str("▐______|\\______▌"));
        frames.push(String::from_str("▐_______|\\_____▌"));
        frames.push(String::from_str("▐________|\\____▌"));
        frames.push(String::from_str("▐_________|\\___▌"));
        frames.push(String::from_str("▐__________|\\__▌"));
        frames.push(String::from_str("▐___________|\\_▌"));
        frames.push(String::from_str("▐____________|\\▌"));
        frames.push(String::from_str("▐____________/|▌"));
        frames.push(String::from_str("▐___________/|_▌"));
        frames.push(String::from_str("▐__________/|__▌"));
        frames.push(String::from_str("▐_________/|___▌"));
        frames.push(String::from_str("▐________/|____▌"));
        frames.push(String::from_str("▐_______/|_____▌"));
        frames.push(String::from_str("▐______/|______▌"));
        frames.push(String::from_str("▐_____/|_______▌"));
        frames.push(String::from_str("▐____/|________▌"));
        frames.push(String::from_str("▐___/|_________▌"));
        frames.push(String::from_str("▐__/|__________▌"));
        frames.push(String::from_str("▐_/|___________▌"));
        frames.push(String::from_str("▐/|____________▌"));
        let c = SpinnerCharset { interval_ms: 120, frames };
        assert(c.frames_view() =~= seq!["▐|\\____________▌"@, "▐_|\\___________▌"@, "▐__|\\__________▌"@, "▐___|\\_________▌"@, "▐____|\\________▌"@, "▐_____|\\_______▌"@, "▐______|\\______▌"@, "▐_______|\\_____▌"@, "▐________|\\____▌"@, "▐_________|\\___▌"@, "▐__________|\\__▌"@, "▐___________|\\_▌"@, "▐____________|\\▌"@, "▐____________/|▌"@, "▐___________/|_▌"@, "▐__________/|__▌"@, "▐_________/|___▌"@, "▐________/|____▌"@, "▐_______/|_____▌"@, "▐______/|______▌"@, "▐_____/|_______▌"@, "▐____/|________▌"@, "▐___/|_________▌"@, "▐__/|__________▌"@, "▐_/|___________▌"@, "▐/|____________▌"@]);
        c
    }

    pub fn dqpb() -> (c: SpinnerCharset)
        ensures
            c.interval_ms == 100,
            c.frames_view() == seq!["d"@, "q"@, "p"@, "b"@],
    {
        let mut frames: Vec<String> = Vec::new();
        frames.push(String::from_str("d"));
        frames.push(String::from_str("q"));
        frames.push(String::from_str("p"));
        frames.push(String::from_str("b"));
        let c = SpinnerCharset { interval_ms: 100, frames };
        assert(c.frames_view() =~= seq!["d"@, "q"@, "p"@, "b"@]);
        c
    }

    pub fn weather() -> (c: SpinnerCharset)
        ensures
            c.interval_ms == 100,
            c.frames_view() == seq!["☀️ "@, "☀️ "@, "☀️ "@, "🌤 "@, "⛅️ "@, "🌥 "@, "☁️ "@, "🌧 "@, "🌨 "@, "🌧 "@, "🌨 "@, "🌧 "@, "🌨 "@, "⛈ "@, "🌨 "@, "🌧 "@, "🌨 "@, "☁️ "@, "🌥 "@, "⛅️ "@, "🌤 "@, "☀️ "@, "☀️ "@],
    {
        let mut frames: Vec<String> = Vec::new();
        frames.push(String::from_str("☀️ "));
        frames.push(String::from_str("☀️ "));
        frames.push(String::from_str("☀️ "));
        frames.push(String::from_str("🌤 "));
        frames.push(String::from_str("⛅️ "));
        frames.push(String::from_str("🌥 "));
        frames.push(String::from_str("☁️ "));
        frames.push(String::from_str("🌧 "));
        frames.push(String::from_str("🌨 "));
        frames.push(String::from_str("🌧 "));
        frames.push(String::from_str("🌨 "));
        frames.push(String::from_str("🌧 "));
        frames.push(String::from_str("🌨 "));
        frames.push(String::from_str("⛈ "));
        frames.push(String::from_str("🌨 "));
        frames.push(String::from_str("🌧 "));
        frames.push(String::from_str("🌨 "));
        frames.push(String::from_str("☁️ "));
        frames.push(String::from_str("🌥 "));
        frames.push(String::from_str("⛅️ "));
        frames.push(String::from_str("🌤 "));
        frames.push(String::from_str("☀️ "));
        frames.push(String::from_str("☀️ "));
        let c = SpinnerCharset { interval_ms: 100, frames };
        assert(c.frames_view() =~= seq!["☀️ "@, "☀️ "@, "☀️ "@, "🌤 "@, "⛅️ "@, "🌥 "@, "☁️ "@, "🌧 "@, "🌨 "@, "🌧 "@, "🌨 "@, "🌧 "@, "🌨 "@, "⛈ "@, "🌨 "@, "🌧 "@, "🌨 "@, "☁️ "@, "🌥 "@, "⛅️ "@, "🌤 "@, "☀️ "@, "☀️ "@]);
        c
    }

    pub fn christmas() -> (c: SpinnerCharset)
        ensures
            c.interval_ms == 400,
            c.frames_view() == seq!["🌲"@, "🎄"@],
    {
        let mut frames: Vec<String> = Vec::new();
        frames.push(String::from_str("🌲"));
        frames.push(String::from_str("🎄"));
        let c = SpinnerCharset { interval_ms: 400, frames };
        assert(c.frames_view() =~= seq!["🌲"@, "🎄"@]);
        c
    }

    pub fn grenade() -> (c: SpinnerCharset)
        ensures
            c.interval_ms == 80,
            c.frames_view() == seq!["،  "@, "′  "@, " ´ "@, " ‾ "@, "  ⸌"@, "  ⸊"@, "  |"@, "  ⁎"@, "  ⁕"@, " ෴ "@, "  ⁓"@, "   "@, "   "@, "   "@],
    {
        let mut frames: Vec<String> = Vec::new();
        frames.push(String::from_str("،  "));
        frames.push(String::from_str("′  "));
        frames.push(String::from_str(" ´ "));
        frames.push(String::from_str(" ‾ "));
        frames.push(String::from_str("  ⸌"));
        frames.push(String::from_str("  ⸊"));
        frames.push(String::from_str("  |"));
        frames.push(String::from_str("  ⁎"));
        frames.push(String::from_str("  ⁕"));
        frames.push(String::from_str(" ෴ "));
        frames.push(String::from_str("  ⁓"));
        frames.push(String::from_str("   "));
        frames.push(String::from_str("   "));
        frames.push(String::from_str("   "));
        let c = SpinnerCharset { interval_ms: 80, frames };
        assert(c.frames_view() =~= seq!["،  "@, "′  "@, " ´ "@, " ‾ "@, "  ⸌"@, "  ⸊"@, "  |"@, "  ⁎"@, "  ⁕"@, " ෴ "@, "  ⁓"@, "   "@, "   "@, "   "@]);
        c
    }

    pub fn point() -> (c: SpinnerCharset)
        ensures
            c.interval_ms == 125,
            c.frames_view() == seq!["∙∙∙"@, "●∙∙"@, "∙●∙"@, "∙∙●"@, "∙∙∙"@],
    {
        let mut frames: Vec<String> = Vec::new();
        frames.push(String::from_str("∙∙∙"));
        frames.push(String::from_str("●∙∙"));
        frames.push(String::from_str("∙●∙"));
        frames.push(String::from_str("∙∙●"));
        frames.push(String::from_str("∙∙∙"));
        let c = SpinnerCharset { interval_ms: 125, frames };
        assert(c.frames_view() =~= seq!["∙∙∙"@, "●∙∙"@, "∙●∙"@, "∙∙●"@, "∙∙∙"@]);
        c
    }

    pub fn layer() -> (c: SpinnerCharset)
        ensures
            c.interval_ms == 150,
            c.frames_view() == seq!["-"@, "="@, "≡"@],
    {
        let mut frames: Vec<String> = Vec::new();
        frames.push(String::from_str("-"));
        frames.push(String::from_str("="));
        frames.push(String::from_str("≡"));
        let c = SpinnerCharset { interval_ms: 150, frames };
        assert(c.frames_view() =~= seq!["-"@, "="@, "≡"@]);
        c
    }

    pub fn beta_wave() -> (c: SpinnerCharset)
        ensures
            c.interval_ms == 80,
            c.frames_view() == seq!["ρββββββ"@, "βρβββββ"@, "ββρββββ"@, "βββρβββ"@, "ββββρββ"@, "βββββρβ"@, "ββββββρ"@],
    {
        let mut frames: Vec<String> = Vec::new();
        frames.push(String::from_str("ρββββββ"));
        frames.push(String::from_str("βρβββββ"));
        frames.push(String::from_str("ββρββββ"));
        frames.push(String::from_str("βββρβββ"));
        frames.push(String::from_str("ββββρββ"));
        frames.push(String::from_str("βββββρβ"));
        frames.push(String::from_str("ββββββρ"));
        let c = SpinnerCharset { interval_ms: 80, frames };
        assert(c.frames_view() =~= seq!["ρββββββ"@, "βρβββββ"@, "ββρββββ"@, "βββρβββ"@, "ββββρββ"@, "βββββρβ"@, "ββββββρ"@]);
        c
    }

    pub fn finger_dance() -> (c: SpinnerCharset)
        ensures
            c.interval_ms == 160,
            c.frames_view() == seq!["🤘 "@, "🤟 "@, "🖖 "@, "✋ "@, "🤚 "@, "👆 "@],
    {
        let mut frames: Vec<String> = Vec::new();
        frames.push(String::from_str("🤘 "));
        frames.push(String::from_str("🤟 "));
        frames.push(String::from_str("🖖 "));
        frames.push(String::from_str("✋ "));
        frames.push(String::from_str("🤚 "));
        frames.push(String::from_str("👆 "));
        let c = SpinnerCharset { interval_ms: 160, frames };
        assert(c.frames_view() =~= seq!["🤘 "@, "🤟 "@, "🖖 "@, "✋ "@, "🤚 "@, "👆 "@]);
        c
    }

    pub fn fist_bump() -> (c: SpinnerCharset)
        ensures
            c.interval_ms == 80,
            c.frames_view() == seq!["🤜\u{3000}\u{3000}\u{3000}\u{3000}🤛 "@, "🤜\u{3000}\u{3000}\u{3000}\u{3000}🤛 "@, "🤜\u{3000}\u{3000}\u{3000}\u{3000}🤛 "@, "\u{3000}🤜\u{3000}\u{3000}🤛\u{3000} "@, "\u{3000}\u{3000}🤜🤛\u{3000}\u{3000} "@, "\u{3000}🤜✨🤛\u{3000}\u{3000} "@, "🤜\u{3000}✨\u{3000}🤛\u{3000} "@],
    {
        let mut frames: Vec<String> = Vec::new();
        frames.push(String::from_str("🤜\u{3000}\u{3000}\u{3000}\u{3000}🤛 "));
        frames.push(String::from_str("🤜\u{3000}\u{3000}\u{3000}\u{3000}🤛 "));
        frames.push(String::from_str("🤜\u{3000}\u{3000}\u{3000}\u{3000}🤛 "));
        frames.push(String::from_str("\u{3000}🤜\u{3000}\u{3000}🤛\u{3000} "));
        frames.push(String::from_str("\u{3000}\u{3000}🤜🤛\u{3000}\u{3000} "));
        frames.push(String::from_str("\u{3000}🤜✨🤛\u{3000}\u{3000} "));
        frames.push(String::from_str("🤜\u{3000}✨\u{3000}🤛\u{3000} "));
        let c = SpinnerCharset { interval_ms: 80, frames };
        assert(c.frames_view() =~= seq!["🤜\u{3000}\u{3000}\u{3000}\u{3000}🤛 "@, "🤜\u{3000}\u{3000}\u{3000}\u{3000}🤛 "@, "🤜\u{3000}\u{3000}\u{3000}\u{3000}🤛 "@, "\u{3000}🤜\u{3000}\u{3000}🤛\u{3000} "@, "\u{3000}\u{3000}🤜🤛\u{3000}\u{3000} "@, "\u{3000}🤜✨🤛\u{3000}\u{3000} "@, "🤜\u{3000}✨\u{3000}🤛\u{3000} "@]);
        c
    }

    pub fn soccer_header() -> (c: SpinnerCharset)
        ensures
            c.interval_ms == 80,
            c.frames_view() == seq![" 🧑⚽️       🧑 "@, "🧑  ⚽️      🧑 "@, "🧑   ⚽️     🧑 "@, "🧑    ⚽️    🧑 "@, "🧑     ⚽️   🧑 "@, "🧑      ⚽️  🧑 "@, "🧑       ⚽️🧑  "@, "🧑      ⚽️  🧑 "@, "🧑     ⚽️   🧑 "@, "🧑    ⚽️    🧑 "@, "🧑   ⚽️     🧑 "@, "🧑  ⚽️      🧑 "@],
    {
        let mut frames: Vec<String> = Vec::new();
        frames.push(String::from_str(" 🧑⚽️       🧑 "));
        frames.push(String::from_str("🧑  ⚽️      🧑 "));
        frames.push(String::from_str("🧑   ⚽️     🧑 "));
        frames.push(String::from_str("🧑    ⚽️    🧑 "));
        frames.push(String::from_str("🧑     ⚽️   🧑 "));
        frames.push(String::from_str("🧑      ⚽️  🧑 "));
        frames.push(String::from_str("🧑       ⚽️🧑  "));
        frames.push(String::from_str("🧑      ⚽️  🧑 "));
        frames.push(String::from_str("🧑     ⚽️   🧑 "));
        frames.push(String::from_str("🧑    ⚽️    🧑 "));
        frames.push(String::from_str("🧑   ⚽️     🧑 "));
        frames.push(String::from_str("🧑  ⚽️      🧑 "));
        let c = SpinnerCharset { interval_ms: 80, frames };
        assert(c.frames_view() =~= seq![" 🧑⚽️       🧑 "@, "🧑  ⚽️      🧑 "@, "🧑   ⚽️     🧑 "@, "🧑    ⚽️    🧑 "@, "🧑     ⚽️   🧑 "@, "🧑      ⚽️  🧑 "@, "🧑       ⚽️🧑  "@, "🧑      ⚽️  🧑 "@, "🧑     ⚽️   🧑 "@, "🧑    ⚽️    🧑 "@, "🧑   ⚽️     🧑 "@, "🧑  ⚽️      🧑 "@]);
        c
    }

    pub fn mindblown() -> (c: SpinnerCharset)
        ensures
            c.interval_ms == 160,
            c.frames_view() == seq!["😐 "@, "😐 "@, "😮 "@, "😮 "@, "😦 "@, "😦 "@, "😧 "@, "😧 "@, "🤯 "@, "💥 "@, "✨ "@, "\u{3000} "@, "\u{3000} "@, "\u{3000} "@],
    {
        let mut frames: Vec<String> = Vec::new();
        frames.push(String::from_str("😐 "));
        frames.push(String::from_str("😐 "));
        frames.push(String::from_str("😮 "));
        frames.push(String::from_str("😮 "));
        frames.push(String::from_str("😦 "));
        frames.push(String::from_str("😦 "));
        frames.push(String::from_str("😧 "));
        frames.push(String::from_str("😧 "));
        frames.push(String::from_str("🤯 "));
        frames.push(String::from_str("💥 "));
        frames.push(String::from_str("✨ "));
        frames.push(String::from_str("\u{3000} "));
        frames.push(String::from_str("\u{3000} "));
        frames.push(String::from_str("\u{3000} "));
        let c = SpinnerCharset { interval_ms: 160, frames };
        assert(c.frames_view() =~= seq!["😐 "@, "😐 "@, "😮 "@, "😮 "@, "😦 "@, "😦 "@, "😧 "@, "😧 "@, "🤯 "@, "💥 "@, "✨ "@, "\u{3000} "@, "\u{3000} "@, "\u{3000} "@]);
        c
    }

    pub fn speaker() -> (c: SpinnerCharset)
        ensures
            c.interval_ms == 160,
            c.frames_view() == seq!["🔈 "@, "🔉 "@, "🔊 "@, "🔉 "@],
    {
        let mut frames: Vec<String> = Vec::new();
        frames.push(String::from_str("🔈 "));
        frames.push(String::from_str("🔉 "));
        frames.push(String::from_str("🔊 "));
        frames.push(String::from_str("🔉 "));
        let c = SpinnerCharset { interval_ms: 160, frames };
        assert(c.frames_view() =~= seq!["🔈 "@, "🔉 "@, "🔊 "@, "🔉 "@]);
        c
    }

    pub fn orange_pulse() -> (c: SpinnerCharset)
        ensures
            c.interval_ms == 100,
            c.frames_view() == seq!["🔸 "@, "🔶 "@, "🟠 "@, "🟠 "@, "🔶 "@],
    {
        let mut frames: Vec<String> = Vec::new();
        frames.push(String::from_str("🔸 "));
        frames.push(String::from_str("🔶 "));
        frames.push(String::from_str("🟠 "));
        frames.push(String::from_str("🟠 "));
        frames.push(String::from_str("🔶 "));
        let c = SpinnerCharset { interval_ms: 100, frames };
        assert(c.frames_view() =~= seq!["🔸 "@, "🔶 "@, "🟠 "@, "🟠 "@, "🔶 "@]);
        c
    }

    pub fn blue_pulse() -> (c: SpinnerCharset)
        ensures
            c.interval_ms == 100,
            c.frames_view() == seq!["🔹 "@, "🔷 "@, "🔵 "@, "🔵 "@, "🔷 "@],
    {
        let mut frames: Vec<String> = Vec::new();
        frames.push(String::from_str("🔹 "));
        frames.push(String::from_str("🔷 "));
        frames.push(String::from_str("🔵 "));
        frames.push(String::from_str("🔵 "));
        frames.push(String::from_str("🔷 "));
        let c = SpinnerCharset { interval_ms: 100, frames };
        assert(c.frames_view() =~= seq!["🔹 "@, "🔷 "@, "🔵 "@, "🔵 "@, "🔷 "@]);
        c
    }

    pub fn orange_blue_pulse() -> (c: SpinnerCharset)
        ensures
            c.interval_ms == 100,
            c.frames_view() == seq!["🔸 "@, "🔶 "@, "🟠 "@, "🟠 "@, "🔶 "@, "🔹 "@, "🔷 "@, "🔵 "@, "🔵 "@, "🔷 "@],
    {
        let mut frames: Vec<String> = Vec::new();
        frames.push(String::from_str("🔸 "));
        frames.push(String::from_str("🔶 "));
        frames.push(String::from_str("🟠 "));
        frames.push(String::from_str("🟠 "));
        frames.push(String::from_str("🔶 "));
        frames.push(String::from_str("🔹 "));
        frames.push(String::from_str("🔷 "));
        frames.push(String::from_str("🔵 "));
        frames.push(String::from_str("🔵 "));
        frames.push(String::from_str("🔷 "));
        let c = SpinnerCharset { interval_ms: 100, frames };
        assert(c.frames_view() =~= seq!["🔸 "@, "🔶 "@, "🟠 "@, "🟠 "@, "🔶 "@, "🔹 "@, "🔷 "@, "🔵 "@, "🔵 "@, "🔷 "@]);
        c
    }

    pub fn time_travel() -> (c: SpinnerCharset)
        ensures
            c.interval_ms == 100,
            c.frames_view() == seq!["🕛 "@, "🕚 "@, "🕙 "@, "🕘 "@, "🕗 "@, "🕖 "@, "🕕 "@, "🕔 "@, "🕓 "@, "🕒 "@, "🕑 "@, "🕐 "@],
    {
        let mut frames: Vec<String> = Vec::new();
        frames.push(String::from_str("🕛 "));
        frames.push(String::from_str("🕚 "));
        frames.push(String::from_str("🕙 "));
        frames.push(String::from_str("🕘 "));
        frames.push(String::from_str("🕗 "));
        frames.push(String::from_str("🕖 "));
        frames.push(String::from_str("🕕 "));
        frames.push(String::from_str("🕔 "));
        frames.push(String::from_str("🕓 "));
        frames.push(String::from_str("🕒 "));
        frames.push(String::from_str("🕑 "));
        frames.push(String::from_str("🕐 "));
        let c = SpinnerCharset { interval_ms: 100, frames };
        assert(c.frames_view() =~= seq!["🕛 "@, "🕚 "@, "🕙 "@, "🕘 "@, "🕗 "@, "🕖 "@, "🕕 "@, "🕔 "@, "🕓 "@, "🕒 "@, "🕑 "@, "🕐 "@]);
        c
    }

    pub fn aesthetic() -> (c: SpinnerCharset)
        ensures
            c.interval_ms == 80,
            c.frames_view() == seq!["▰▱▱▱▱▱▱"@, "▰▰▱▱▱▱▱"@, "▰▰▰▱▱▱▱"@, "▰▰▰▰▱▱▱"@, "▰▰▰▰▰▱▱"@, "▰▰▰▰▰▰▱"@, "▰▰▰▰▰▰▰"@, "▰▱▱▱▱▱▱"@],
    {
        let mut frames: Vec<String> = Vec::new();
        frames.push(String::from_str("▰▱▱▱▱▱▱"));
        frames.push(String::from_str("▰▰▱▱▱▱▱"));
        frames.push(String::from_str("▰▰▰▱▱▱▱"));
        frames.push(String::from_str("▰▰▰▰▱▱▱"));
        frames.push(String::from_str("▰▰▰▰▰▱▱"));
        frames.push(String::from_str("▰▰▰▰▰▰▱"));
        frames.push(String::from_str("▰▰▰▰▰▰▰"));
        frames.push(String::from_str("▰▱▱▱▱▱▱"));
        let c = SpinnerCharset { interval_ms: 80, frames };
        assert(c.frames_view() =~= seq!["▰▱▱▱▱▱▱"@, "▰▰▱▱▱▱▱"@, "▰▰▰▱▱▱▱"@, "▰▰▰▰▱▱▱"@, "▰▰▰▰▰▱▱"@, "▰▰▰▰▰▰▱"@, "▰▰▰▰▰▰▰"@, "▰▱▱▱▱▱▱"@]);
        c
    }

    pub fn dwarf_fortress() -> (c: SpinnerCharset)
        ensures
            c.interval_ms == 80,
            c.frames_view() == seq![" ██████£££  "@, "☺██████£££  "@, "☺██████£££  "@, "☺▓█████£££  "@, "☺▓█████£££  "@, "☺▒█████£££  "@, "☺▒█████£££  "@, "☺░█████£££  "@, "☺░█████£££  "@, "☺ █████£££  "@, " ☺█████£££  "@, " ☺█████£££  "@, " ☺▓████£££  "@, " ☺▓████£££  "@, " ☺▒████£££  "@, " ☺▒████£££  "@, " ☺░████£££  "@, " ☺░████£££  "@, " ☺ ████£££  "@, "  ☺████£££  "@, "  ☺████£££  "@, "  ☺▓███£££  "@, "  ☺▓███£££  "@, "  ☺▒███£££  "@, "  ☺▒███£££  "@, "  ☺░███£££  "@, "  ☺░███£££  "@, "  ☺ ███£££  "@, "   ☺███£££  "@, "   ☺███£££  "@, "   ☺▓██£££  "@, "   ☺▓██£££  "@, "   ☺▒██£££  "@, "   ☺▒██£££  "@, "   ☺░██£££  "@, "   ☺░██£££  "@, "   ☺ ██£££  "@, "    ☺██£££  "@, "    ☺██£££  "@, "    ☺▓█£££  "@, "    ☺▓█£££  "@, "    ☺▒█£££  "@, "    ☺▒█£££  "@, "    ☺░█£££  "@, "    ☺░█£££  "@, "    ☺ █£££  "@, "     ☺█£££  "@, "     ☺█£££  "@, "     ☺▓£££  "@, "     ☺▓£££  "@, "     ☺▒£££  "@, "     ☺▒£££  "@, "     ☺░£££  "@, "     ☺░£££  "@, "     ☺ £££  "@, "      ☺£££  "@, "      ☺£££  "@, "      ☺▓££  "@, "      ☺▓££  "@, "      ☺▒££  "@, "      ☺▒££  "@, "      ☺░££  "@, "      ☺░££  "@, "      ☺ ££  "@] + seq!["       ☺££  "@, "       ☺££  "@, "       ☺▓£  "@, "       ☺▓£  "@, "       ☺▒£  "@, "       ☺▒£  "@, "       ☺░£  "@, "       ☺░£  "@, "       ☺ £  "@, "        ☺£  "@, "        ☺£  "@, "        ☺▓  "@, "        ☺▓  "@, "        ☺▒  "@, "        ☺▒  "@, "        ☺░  "@, "        ☺░  "@, "        ☺   "@, "        ☺  &"@, "        ☺ ☼&"@, "       ☺ ☼ &"@, "       ☺☼  &"@, "      ☺☼  & "@, "      ‼   & "@, "     ☺   &  "@, "    ‼    &  "@, "   ☺    &   "@, "  ‼     &   "@, " ☺     &    "@, "‼      &    "@, "      &     "@, "      &     "@, "     &   ░  "@, "     &   ▒  "@, "    &    ▓  "@, "    &    £  "@, "   &    ░£  "@, "   &    ▒£  "@, "  &     ▓£  "@, "  &     ££  "@, " &     ░££  "@, " &     ▒££  "@, "&      ▓££  "@, "&      £££  "@, "      ░£££  "@, "      ▒£££  "@, "      ▓£££  "@, "      █£££  "@, "     ░█£££  "@, "     ▒█£££  "@, "     ▓█£££  "@, "     ██£££  "@, "    ░██£££  "@, "    ▒██£££  "@, "    ▓██£££  "@, "    ███£££  "@, "   ░███£££  "@, "   ▒███£££  "@, "   ▓███£££  "@, "   ████£££  "@, "  ░████£££  "@, "  ▒████£££  "@, "  ▓████£££  "@, "  █████£££  "@] + seq![" ░█████£££  "@, " ▒█████£££  "@, " ▓█████£££  "@, " ██████£££  "@, " ██████£££  "@],
    {
        let part0 = dwarf_fortress_frames_0();
        let part1 = dwarf_fortress_frames_1();
        let part2 = dwarf_fortress_frames_2();
        let mut frames = part0;
        let mut p1 = part1;
        let ghost before1 = frames@;
        frames.append(&mut p1);
        let mut p2 = part2;
        let ghost before2 = frames@;
        frames.append(&mut p2);
        let c = SpinnerCharset { interval_ms: 80, frames };
        assert(c.frames_view() =~= seq![" ██████£££  "@, "☺██████£££  "@, "☺██████£££  "@, "☺▓█████£££  "@, "☺▓█████£££  "@, "☺▒█████£££  "@, "☺▒█████£££  "@, "☺░█████£££  "@, "☺░█████£££  "@, "☺ █████£££  "@, " ☺█████£££  "@, " ☺█████£££  "@, " ☺▓████£££  "@, " ☺▓████£££  "@, " ☺▒████£££  "@, " ☺▒████£££  "@, " ☺░████£££  "@, " ☺░████£££  "@, " ☺ ████£££  "@, "  ☺████£££  "@, "  ☺████£££  "@, "  ☺▓███£££  "@, "  ☺▓███£££  "@, "  ☺▒███£££  "@, "  ☺▒███£££  "@, "  ☺░███£££  "@, "  ☺░███£££  "@, "  ☺ ███£££  "@, "   ☺███£££  "@, "   ☺███£££  "@, "   ☺▓██£££  "@, "   ☺▓██£££  "@, "   ☺▒██£££  "@, "   ☺▒██£££  "@, "   ☺░██£££  "@, "   ☺░██£££  "@, "   ☺ ██£££  "@, "    ☺██£££  "@, "    ☺██£££  "@, "    ☺▓█£££  "@, "    ☺▓█£££  "@, "    ☺▒█£££  "@, "    ☺▒█£££  "@, "    ☺░█£££  "@, "    ☺░█£££  "@, "    ☺ █£££  "@, "     ☺█£££  "@, "     ☺█£££  "@, "     ☺▓£££  "@, "     ☺▓£££  "@, "     ☺▒£££  "@, "     ☺▒£££  "@, "     ☺░£££  "@, "     ☺░£££  "@, "     ☺ £££  "@, "      ☺£££  "@, "      ☺£££  "@, "      ☺▓££  "@, "      ☺▓££  "@, "      ☺▒££  "@, "      ☺▒££  "@, "      ☺░££  "@, "      ☺░££  "@, "      ☺ ££  "@] + seq!["       ☺££  "@, "       ☺££  "@, "       ☺▓£  "@, "       ☺▓£  "@, "       ☺▒£  "@, "       ☺▒£  "@, "       ☺░£  "@, "       ☺░£  "@, "       ☺ £  "@, "        ☺£  "@, "        ☺£  "@, "        ☺▓  "@, "        ☺▓  "@, "        ☺▒  "@, "        ☺▒  "@, "        ☺░  "@, "        ☺░  "@, "        ☺   "@, "        ☺  &"@, "        ☺ ☼&"@, "       ☺ ☼ &"@, "       ☺☼  &"@, "      ☺☼  & "@, "      ‼   & "@, "     ☺   &  "@, "    ‼    &  "@, "   ☺    &   "@, "  ‼     &   "@, " ☺     &    "@, "‼      &    "@, "      &     "@, "      &     "@, "     &   ░  "@, "     &   ▒  "@, "    &    ▓  "@, "    &    £  "@, "   &    ░£  "@, "   &    ▒£  "@, "  &     ▓£  "@, "  &     ££  "@, " &     ░££  "@, " &     ▒££  "@, "&      ▓££  "@, "&      £££  "@, "      ░£££  "@, "      ▒£££  "@, "      ▓£££  "@, "      █£££  "@, "     ░█£££  "@, "     ▒█£££  "@, "     ▓█£££  "@, "     ██£££  "@, "    ░██£££  "@, "    ▒██£££  "@, "    ▓██£££  "@, "    ███£££  "@, "   ░███£££  "@, "   ▒███£££  "@, "   ▓███£££  "@, "   ████£££  "@, "  ░████£££  "@, "  ▒████£££  "@, "  ▓████£££  "@, "  █████£££  "@] + seq![" ░█████£££  "@, " ▒█████£££  "@, " ▓█████£££  "@, " ██████£££  "@, " ██████£££  "@]);
        c
    }

    pub fn fish() -> (c: SpinnerCharset)
        ensures
            c.interval_ms == 80,
            c.frames_view() == seq!["~~~~~~~~~~~~~~~~~~~~"@, "> ~~~~~~~~~~~~~~~~~~"@, "º> ~~~~~~~~~~~~~~~~~"@, "(º> ~~~~~~~~~~~~~~~~"@, "((º> ~~~~~~~~~~~~~~~"@, "<((º> ~~~~~~~~~~~~~~"@, "><((º> ~~~~~~~~~~~~~"@, " ><((º> ~~~~~~~~~~~~"@, "~ ><((º> ~~~~~~~~~~~"@, "~~ <>((º> ~~~~~~~~~~"@, "~~~ ><((º> ~~~~~~~~~"@, "~~~~ <>((º> ~~~~~~~~"@, "~~~~~ ><((º> ~~~~~~~"@, "~~~~~~ <>((º> ~~~~~~"@, "~~~~~~~ ><((º> ~~~~~"@, "~~~~~~~~ <>((º> ~~~~"@, "~~~~~~~~~ ><((º> ~~~"@, "~~~~~~~~~~ <>((º> ~~"@, "~~~~~~~~~~~ ><((º> ~"@, "~~~~~~~~~~~~ <>((º> "@, "~~~~~~~~~~~~~ ><((º>"@, "~~~~~~~~~~~~~~ <>((º"@, "~~~~~~~~~~~~~~~ ><(("@, "~~~~~~~~~~~~~~~~ <>("@, "~~~~~~~~~~~~~~~~~ ><"@, "~~~~~~~~~~~~~~~~~~ <"@, "~~~~~~~~~~~~~~~~~~~~"@],
    {
        let mut frames: Vec<String> = Vec::new();
        frames.push(String::from_str("~~~~~~~~~~~~~~~~~~~~"));
        frames.push(String::from_str("> ~~~~~~~~~~~~~~~~~~"));
        frames.push(String::from_str("º> ~~~~~~~~~~~~~~~~~"));
        frames.push(String::from_str("(º> ~~~~~~~~~~~~~~~~"));
        frames.push(String::from_str("((º> ~~~~~~~~~~~~~~~"));
        frames.push(String::from_str("<((º> ~~~~~~~~~~~~~~"));
        frames.push(String::from_str("><((º> ~~~~~~~~~~~~~"));
        frames.push(String::from_str(" ><((º> ~~~~~~~~~~~~"));
        frames.push(String::from_str("~ ><((º> ~~~~~~~~~~~"));
        frames.push(String::from_str("~~ <>((º> ~~~~~~~~~~"));
        frames.push(String::from_str("~~~ ><((º> ~~~~~~~~~"));
        frames.push(String::from_str("~~~~ <>((º> ~~~~~~~~"));
        frames.push(String::from_str("~~~~~ ><((º> ~~~~~~~"));
        frames.push(String::from_str("~~~~~~ <>((º> ~~~~~~"));
        frames.push(String::from_str("~~~~~~~ ><((º> ~~~~~"));
        frames.push(String::from_str("~~~~~~~~ <>((º> ~~~~"));
        frames.push(String::from_str("~~~~~~~~~ ><((º> ~~~"));
        frames.push(String::from_str("~~~~~~~~~~ <>((º> ~~"));
        frames.push(String::from_str("~~~~~~~~~~~ ><((º> ~"));
        frames.push(String::from_str("~~~~~~~~~~~~ <>((º> "));
        frames.push(String::from_str("~~~~~~~~~~~~~ ><((º>"));
        frames.push(String::from_str("~~~~~~~~~~~~~~ <>((º"));
        frames.push(String::from_str("~~~~~~~~~~~~~~~ ><(("));
        frames.push(String::from_str("~~~~~~~~~~~~~~~~ <>("));
        frames.push(String::from_str("~~~~~~~~~~~~~~~~~ ><"));
        frames.push(String::from_str("~~~~~~~~~~~~~~~~~~ <"));
        frames.push(String::from_str("~~~~~~~~~~~~~~~~~~~~"));
        let c = SpinnerCharset { interval_ms: 80, frames };
        assert(c.frames_view() =~= seq!["~~~~~~~~~~~~~~~~~~~~"@, "> ~~~~~~~~~~~~~~~~~~"@, "º> ~~~~~~~~~~~~~~~~~"@, "(º> ~~~~~~~~~~~~~~~~"@, "((º> ~~~~~~~~~~~~~~~"@, "<((º> ~~~~~~~~~~~~~~"@, "><((º> ~~~~~~~~~~~~~"@, " ><((º> ~~~~~~~~~~~~"@, "~ ><((º> ~~~~~~~~~~~"@, "~~ <>((º> ~~~~~~~~~~"@, "~~~ ><((º> ~~~~~~~~~"@, "~~~~ <>((º> ~~~~~~~~"@, "~~~~~ ><((º> ~~~~~~~"@, "~~~~~~ <>((º> ~~~~~~"@, "~~~~~~~ ><((º> ~~~~~"@, "~~~~~~~~ <>((º> ~~~~"@, "~~~~~~~~~ ><((º> ~~~"@, "~~~~~~~~~~ <>((º> ~~"@, "~~~~~~~~~~~ ><((º> ~"@, "~~~~~~~~~~~~ <>((º> "@, "~~~~~~~~~~~~~ ><((º>"@, "~~~~~~~~~~~~~~ <>((º"@, "~~~~~~~~~~~~~~~ ><(("@, "~~~~~~~~~~~~~~~~ <>("@, "~~~~~~~~~~~~~~~~~ ><"@, "~~~~~~~~~~~~~~~~~~ <"@, "~~~~~~~~~~~~~~~~~~~~"@]);
        c
    }

}

fn dots8bit_frames_0() -> (frames: Vec<String>)
    ensures
        strings_view(frames@) == seq!["⠀"@, "⠁"@, "⠂"@, "⠃"@, "⠄"@, "⠅"@, "⠆"@, "⠇"@, "⡀"@, "⡁"@, "⡂"@, "⡃"@, "⡄"@, "⡅"@, "⡆"@, "⡇"@, "⠈"@, "⠉"@, "⠊"@, "⠋"@, "⠌"@, "⠍"@, "⠎"@, "⠏"@, "⡈"@, "⡉"@, "⡊"@, "⡋"@, "⡌"@, "⡍"@, "⡎"@, "⡏"@, "⠐"@, "⠑"@, "⠒"@, "⠓"@, "⠔"@, "⠕"@, "⠖"@, "⠗"@, "⡐"@, "⡑"@, "⡒"@, "⡓"@, "⡔"@, "⡕"@, "⡖"@, "⡗"@, "⠘"@, "⠙"@, "⠚"@, "⠛"@, "⠜"@, "⠝"@, "⠞"@, "⠟"@, "⡘"@, "⡙"@, "⡚"@, "⡛"@, "⡜"@, "⡝"@, "⡞"@, "⡟"@],
{
    let mut frames: Vec<String> = Vec::new();
    frames.push(String::from_str("⠀"));
    frames.push(String::from_str("⠁"));
    frames.push(String::from_str("⠂"));
    frames.push(String::from_str("⠃"));
    frames.push(String::from_str("⠄"));
    frames.push(String::from_str("⠅"));
    frames.push(String::from_str("⠆"));
    frames.push(String::from_str("⠇"));
    frames.push(String::from_str("⡀"));
    frames.push(String::from_str("⡁"));
    frames.push(String::from_str("⡂"));
    frames.push(String::from_str("⡃"));
    frames.push(String::from_str("⡄"));
    frames.push(String::from_str("⡅"));
    frames.push(String::from_str("⡆"));
    frames.push(String::from_str("⡇"));
    frames.push(String::from_str("⠈"));
    frames.push(String::from_str("⠉"));
    frames.push(String::from_str("⠊"));
    frames.push(String::from_str("⠋"));
    frames.push(String::from_str("⠌"));
    frames.push(String::from_str("⠍"));
    frames.push(String::from_str("⠎"));
    frames.push(String::from_str("⠏"));
    frames.push(String::from_str("⡈"));
    frames.push(String::from_str("⡉"));
    frames.push(String::from_str("⡊"));
    frames.push(String::from_str("⡋"));
    frames.push(String::from_str("⡌"));
    frames.push(String::from_str("⡍"));
    frames.push(String::from_str("⡎"));
    frames.push(String::from_str("⡏"));
    frames.push(String::from_str("⠐"));
    frames.push(String::from_str("⠑"));
    frames.push(String::from_str("⠒"));
    frames.push(String::from_str("⠓"));
    frames.push(String::from_str("⠔"));
    frames.push(String::from_str("⠕"));
    frames.push(String::from_str("⠖"));
    frames.push(String::from_str("⠗"));
    frames.push(String::from_str("⡐"));
    frames.push(String::from_str("⡑"));
    frames.push(String::from_str("⡒"));
    frames.push(String::from_str("⡓"));
    frames.push(String::from_str("⡔"));
    frames.push(String::from_str("⡕"));
    frames.push(String::from_str("⡖"));
    frames.push(String::from_str("⡗"));
    frames.push(String::from_str("⠘"));
    frames.push(String::from_str("⠙"));
    frames.push(String::from_str("⠚"));
    frames.push(String::from_str("⠛"));
    frames.push(String::from_str("⠜"));
    frames.push(String::from_str("⠝"));
    frames.push(String::from_str("⠞"));
    frames.push(String::from_str("⠟"));
    frames.push(String::from_str("⡘"));
    frames.push(String::from_str("⡙"));
    frames.push(String::from_str("⡚"));
    frames.push(String::from_str("⡛"));
    frames.push(String::from_str("⡜"));
    frames.push(String::from_str("⡝"));
    frames.push(String::from_str("⡞"));
    frames.push(String::from_str("⡟"));
    assert(strings_view(frames@) =~= seq!["⠀"@, "⠁"@, "⠂"@, "⠃"@, "⠄"@, "⠅"@, "⠆"@, "⠇"@, "⡀"@, "⡁"@, "⡂"@, "⡃"@, "⡄"@, "⡅"@, "⡆"@, "⡇"@, "⠈"@, "⠉"@, "⠊"@, "⠋"@, "⠌"@, "⠍"@, "⠎"@, "⠏"@, "⡈"@, "⡉"@, "⡊"@, "⡋"@, "⡌"@, "⡍"@, "⡎"@, "⡏"@, "⠐"@, "⠑"@, "⠒"@, "⠓"@, "⠔"@, "⠕"@, "⠖"@, "⠗"@, "⡐"@, "⡑"@, "⡒"@, "⡓"@, "⡔"@, "⡕"@, "⡖"@, "⡗"@, "⠘"@, "⠙"@, "⠚"@, "⠛"@, "⠜"@, "⠝"@, "⠞"@, "⠟"@, "⡘"@, "⡙"@, "⡚"@, "⡛"@, "⡜"@, "⡝"@, "⡞"@, "⡟"@]);
    frames
}

fn dots8bit_frames_1() -> (frames: Vec<String>)
    ensures
        strings_view(frames@) == seq!["⠠"@, "⠡"@, "⠢"@, "⠣"@, "⠤"@, "⠥"@, "⠦"@, "⠧"@, "⡠"@, "⡡"@, "⡢"@, "⡣"@, "⡤"@, "⡥"@, "⡦"@, "⡧"@, "⠨"@, "⠩"@, "⠪"@, "⠫"@, "⠬"@, "⠭"@, "⠮"@, "⠯"@, "⡨"@, "⡩"@, "⡪"@, "⡫"@, "⡬"@, "⡭"@, "⡮"@, "⡯"@, "⠰"@, "⠱"@, "⠲"@, "⠳"@, "⠴"@, "⠵"@, "⠶"@, "⠷"@, "⡰"@, "⡱"@, "⡲"@, "⡳"@, "⡴"@, "⡵"@, "⡶"@, "⡷"@, "⠸"@, "⠹"@, "⠺"@, "⠻"@, "⠼"@, "⠽"@, "⠾"@, "⠿"@, "⡸"@, "⡹"@, "⡺"@, "⡻"@, "⡼"@, "⡽"@, "⡾"@, "⡿"@],
{
    let mut frames: Vec<String> = Vec::new();
    frames.push(String::from_str("⠠"));
    frames.push(String::from_str("⠡"));
    frames.push(String::from_str("⠢"));
    frames.push(String::from_str("⠣"));
    frames.push(String::from_str("⠤"));
    frames.push(String::from_str("⠥"));
    frames.push(String::from_str("⠦"));
    frames.push(String::from_str("⠧"));
    frames.push(String::from_str("⡠"));
    frames.push(String::from_str("⡡"));
    frames.push(String::from_str("⡢"));
    frames.push(String::from_str("⡣"));
    frames.push(String::from_str("⡤"));
    frames.push(String::from_str("⡥"));
    frames.push(String::from_str("⡦"));
    frames.push(String::from_str("⡧"));
    frames.push(String::from_str("⠨"));
    frames.push(String::from_str("⠩"));
    frames.push(String::from_str("⠪"));
    frames.push(String::from_str("⠫"));
    frames.push(String::from_str("⠬"));
    frames.push(String::from_str("⠭"));
    frames.push(String::from_str("⠮"));
    frames.push(String::from_str("⠯"));
    frames.push(String::from_str("⡨"));
    frames.push(String::from_str("⡩"));
    frames.push(String::from_str("⡪"));
    frames.push(String::from_str("⡫"));
    frames.push(String::from_str("⡬"));
    frames.push(String::from_str("⡭"));
    frames.push(String::from_str("⡮"));
    frames.push(String::from_str("⡯"));
    frames.push(String::from_str("⠰"));
    frames.push(String::from_str("⠱"));
    frames.push(String::from_str("⠲"));
    frames.push(String::from_str("⠳"));
    frames.push(String::from_str("⠴"));
    frames.push(String::from_str("⠵"));
    frames.push(String::from_str("⠶"));
    frames.push(String::from_str("⠷"));
    frames.push(String::from_str("⡰"));
    frames.push(String::from_str("⡱"));
    frames.push(String::from_str("⡲"));
    frames.push(String::from_str("⡳"));
    frames.push(String::from_str("⡴"));
    frames.push(String::from_str("⡵"));
    frames.push(String::from_str("⡶"));
    frames.push(String::from_str("⡷"));
    frames.push(String::from_str("⠸"));
    frames.push(String::from_str("⠹"));
    frames.push(String::from_str("⠺"));
    frames.push(String::from_str("⠻"));
    frames.push(String::from_str("⠼"));
    frames.push(String::from_str("⠽"));
    frames.push(String::from_str("⠾"));
    frames.push(String::from_str("⠿"));
    frames.push(String::from_str("⡸"));
    frames.push(String::from_str("⡹"));
    frames.push(String::from_str("⡺"));
    frames.push(String::from_str("⡻"));
    frames.push(String::from_str("⡼"));
    frames.push(String::from_str("⡽"));
    frames.push(String::from_str("⡾"));
    frames.push(String::from_str("⡿"));
    assert(strings_view(frames@) =~= seq!["⠠"@, "⠡"@, "⠢"@, "⠣"@, "⠤"@, "⠥"@, "⠦"@, "⠧"@, "⡠"@, "⡡"@, "⡢"@, "⡣"@, "⡤"@, "⡥"@, "⡦"@, "⡧"@, "⠨"@, "⠩"@, "⠪"@, "⠫"@, "⠬"@, "⠭"@, "⠮"@, "⠯"@, "⡨"@, "⡩"@, "⡪"@, "⡫"@, "⡬"@, "⡭"@, "⡮"@, "⡯"@, "⠰"@, "⠱"@, "⠲"@, "⠳"@, "⠴"@, "⠵"@, "⠶"@, "⠷"@, "⡰"@, "⡱"@, "⡲"@, "⡳"@, "⡴"@, "⡵"@, "⡶"@, "⡷"@, "⠸"@, "⠹"@, "⠺"@, "⠻"@, "⠼"@, "⠽"@, "⠾"@, "⠿"@, "⡸"@, "⡹"@, "⡺"@, "⡻"@, "⡼"@, "⡽"@, "⡾"@, "⡿"@]);
    frames
}

fn dots8bit_frames_2() -> (frames: Vec<String>)
    ensures
        strings_view(frames@) == seq!["⢀"@, "⢁"@, "⢂"@, "⢃"@, "⢄"@, "⢅"@, "⢆"@, "⢇"@, "⣀"@, "⣁"@, "⣂"@, "⣃"@, "⣄"@, "⣅"@, "⣆"@, "⣇"@, "⢈"@, "⢉"@, "⢊"@, "⢋"@, "⢌"@, "⢍"@, "⢎"@, "⢏"@, "⣈"@, "⣉"@, "⣊"@, "⣋"@, "⣌"@, "⣍"@, "⣎"@, "⣏"@, "⢐"@, "⢑"@, "⢒"@, "⢓"@, "⢔"@, "⢕"@, "⢖"@, "⢗"@, "⣐"@, "⣑"@, "⣒"@, "⣓"@, "⣔"@, "⣕"@, "⣖"@, "⣗"@, "⢘"@, "⢙"@, "⢚"@, "⢛"@, "⢜"@, "⢝"@, "⢞"@, "⢟"@, "⣘"@, "⣙"@, "⣚"@, "⣛"@, "⣜"@, "⣝"@, "⣞"@, "⣟"@],
{
    let mut frames: Vec<String> = Vec::new();
    frames.push(String::from_str("⢀"));
    frames.push(String::from_str("⢁"));
    frames.push(String::from_str("⢂"));
    frames.push(String::from_str("⢃"));
    frames.push(String::from_str("⢄"));
    frames.push(String::from_str("⢅"));
    frames.push(String::from_str("⢆"));
    frames.push(String::from_str("⢇"));
    frames.push(String::from_str("⣀"));
    frames.push(String::from_str("⣁"));
    frames.push(String::from_str("⣂"));
    frames.push(String::from_str("⣃"));
    frames.push(String::from_str("⣄"));
    frames.push(String::from_str("⣅"));
    frames.push(String::from_str("⣆"));
    frames.push(String::from_str("⣇"));
    frames.push(String::from_str("⢈"));
    frames.push(String::from_str("⢉"));
    frames.push(String::from_str("⢊"));
    frames.push(String::from_str("⢋"));
    frames.push(String::from_str("⢌"));
    frames.push(String::from_str("⢍"));
    frames.push(String::from_str("⢎"));
    frames.push(String::from_str("⢏"));
    frames.push(String::from_str("⣈"));
    frames.push(String::from_str("⣉"));
    frames.push(String::from_str("⣊"));
    frames.push(String::from_str("⣋"));
    frames.push(String::from_str("⣌"));
    frames.push(String::from_str("⣍"));
    frames.push(String::from_str("⣎"));
    frames.push(String::from_str("⣏"));
    frames.push(String::from_str("⢐"));
    frames.push(String::from_str("⢑"));
    frames.push(String::from_str("⢒"));
    frames.push(String::from_str("⢓"));
    frames.push(String::from_str("⢔"));
    frames.push(String::from_str("⢕"));
    frames.push(String::from_str("⢖"));
    frames.push(String::from_str("⢗"));
    frames.push(String::from_str("⣐"));
    frames.push(String::from_str("⣑"));
    frames.push(String::from_str("⣒"));
    frames.push(String::from_str("⣓"));
    frames.push(String::from_str("⣔"));
    frames.push(String::from_str("⣕"));
    frames.push(String::from_str("⣖"));
    frames.push(String::from_str("⣗"));
    frames.push(String::from_str("⢘"));
    frames.push(String::from_str("⢙"));
    frames.push(String::from_str("⢚"));
    frames.push(String::from_str("⢛"));
    frames.push(String::from_str("⢜"));
    frames.push(String::from_str("⢝"));
    frames.push(String::from_str("⢞"));
    frames.push(String::from_str("⢟"));
    frames.push(String::from_str("⣘"));
    frames.push(String::from_str("⣙"));
    frames.push(String::from_str("⣚"));
    frames.push(String::from_str("⣛"));
    frames.push(String::from_str("⣜"));
    frames.push(String::from_str("⣝"));
    frames.push(String::from_str("⣞"));
    frames.push(String::from_str("⣟"));
    assert(strings_view(frames@) =~= seq!["⢀"@, "⢁"@, "⢂"@, "⢃"@, "⢄"@, "⢅"@, "⢆"@, "⢇"@, "⣀"@, "⣁"@, "⣂"@, "⣃"@, "⣄"@, "⣅"@, "⣆"@, "⣇"@, "⢈"@, "⢉"@, "⢊"@, "⢋"@, "⢌"@, "⢍"@, "⢎"@, "⢏"@, "⣈"@, "⣉"@, "⣊"@, "⣋"@, "⣌"@, "⣍"@, "⣎"@, "⣏"@, "⢐"@, "⢑"@, "⢒"@, "⢓"@, "⢔"@, "⢕"@, "⢖"@, "⢗"@, "⣐"@, "⣑"@, "⣒"@, "⣓"@, "⣔"@, "⣕"@, "⣖"@, "⣗"@, "⢘"@, "⢙"@, "⢚"@, "⢛"@, "⢜"@, "⢝"@, "⢞"@, "⢟"@, "⣘"@, "⣙"@, "⣚"@, "⣛"@, "⣜"@, "⣝"@, "⣞"@, "⣟"@]);
    frames
}

fn dots8bit_frames_3() -> (frames: Vec<String>)
    ensures
        strings_view(frames@) == seq!["⢠"@, "⢡"@, "⢢"@, "⢣"@, "⢤"@, "⢥"@, "⢦"@, "⢧"@, "⣠"@, "⣡"@, "⣢"@, "⣣"@, "⣤"@, "⣥"@, "⣦"@, "⣧"@, "⢨"@, "⢩"@, "⢪"@, "⢫"@, "⢬"@, "⢭"@, "⢮"@, "⢯"@, "⣨"@, "⣩"@, "⣪"@, "⣫"@, "⣬"@, "⣭"@, "⣮"@, "⣯"@, "⢰"@, "⢱"@, "⢲"@, "⢳"@, "⢴"@, "⢵"@, "⢶"@, "⢷"@, "⣰"@, "⣱"@, "⣲"@, "⣳"@, "⣴"@, "⣵"@, "⣶"@, "⣷"@, "⢸"@, "⢹"@, "⢺"@, "⢻"@, "⢼"@, "⢽"@, "⢾"@, "⢿"@, "⣸"@, "⣹"@, "⣺"@, "⣻"@, "⣼"@, "⣽"@, "⣾"@, "⣿"@],
{
    let mut frames: Vec<String> = Vec::new();
    frames.push(String::from_str("⢠"));
    frames.push(String::from_str("⢡"));
    frames.push(String::from_str("⢢"));
    frames.push(String::from_str("⢣"));
    frames.push(String::from_str("⢤"));
    frames.push(String::from_str("⢥"));
    frames.push(String::from_str("⢦"));
    frames.push(String::from_str("⢧"));
    frames.push(String::from_str("⣠"));
    frames.push(String::from_str("⣡"));
    frames.push(String::from_str("⣢"));
    frames.push(String::from_str("⣣"));
    frames.push(String::from_str("⣤"));
    frames.push(String::from_str("⣥"));
    frames.push(String::from_str("⣦"));
    frames.push(String::from_str("⣧"));
    frames.push(String::from_str("⢨"));
    frames.push(String::from_str("⢩"));
    frames.push(String::from_str("⢪"));
    frames.push(String::from_str("⢫"));
    frames.push(String::from_str("⢬"));
    frames.push(String::from_str("⢭"));
    frames.push(String::from_str("⢮"));
    frames.push(String::from_str("⢯"));
    frames.push(String::from_str("⣨"));
    frames.push(String::from_str("⣩"));
    frames.push(String::from_str("⣪"));
    frames.push(String::from_str("⣫"));
    frames.push(String::from_str("⣬"));
    frames.push(String::from_str("⣭"));
    frames.push(String::from_str("⣮"));
    frames.push(String::from_str("⣯"));
    frames.push(String::from_str("⢰"));
    frames.push(String::from_str("⢱"));
    frames.push(String::from_str("⢲"));
    frames.push(String::from_str("⢳"));
    frames.push(String::from_str("⢴"));
    frames.push(String::from_str("⢵"));
    frames.push(String::from_str("⢶"));
    frames.push(String::from_str("⢷"));
    frames.push(String::from_str("⣰"));
    frames.push(String::from_str("⣱"));
    frames.push(String::from_str("⣲"));
    frames.push(String::from_str("⣳"));
    frames.push(String::from_str("⣴"));
    frames.push(String::from_str("⣵"));
    frames.push(String::from_str("⣶"));
    frames.push(String::from_str("⣷"));
    frames.push(String::from_str("⢸"));
    frames.push(String::from_str("⢹"));
    frames.push(String::from_str("⢺"));
    frames.push(String::from_str("⢻"));
    frames.push(String::from_str("⢼"));
    frames.push(String::from_str("⢽"));
    frames.push(String::from_str("⢾"));
    frames.push(String::from_str("⢿"));
    frames.push(String::from_str("⣸"));
    frames.push(String::from_str("⣹"));
    frames.push(String::from_str("⣺"));
    frames.push(String::from_str("⣻"));
    frames.push(String::from_str("⣼"));
    frames.push(String::from_str("⣽"));
    frames.push(String::from_str("⣾"));
    frames.push(String::from_str("⣿"));
    assert(strings_view(frames@) =~= seq!["⢠"@, "⢡"@, "⢢"@, "⢣"@, "⢤"@, "⢥"@, "⢦"@, "⢧"@, "⣠"@, "⣡"@, "⣢"@, "⣣"@, "⣤"@, "⣥"@, "⣦"@, "⣧"@, "⢨"@, "⢩"@, "⢪"@, "⢫"@, "⢬"@, "⢭"@, "⢮"@, "⢯"@, "⣨"@, "⣩"@, "⣪"@, "⣫"@, "⣬"@, "⣭"@, "⣮"@, "⣯"@, "⢰"@, "⢱"@, "⢲"@, "⢳"@, "⢴"@, "⢵"@, "⢶"@, "⢷"@, "⣰"@, "⣱"@, "⣲"@, "⣳"@, "⣴"@, "⣵"@, "⣶"@, "⣷"@, "⢸"@, "⢹"@, "⢺"@, "⢻"@, "⢼"@, "⢽"@, "⢾"@, "⢿"@, "⣸"@, "⣹"@, "⣺"@, "⣻"@, "⣼"@, "⣽"@, "⣾"@, "⣿"@]);
    frames
}

fn material_frames_0() -> (frames: Vec<String>)
    ensures
        strings_view(frames@) == seq!["█▁▁▁▁▁▁▁▁▁▁▁▁▁▁▁▁▁▁▁"@, "██▁▁▁▁▁▁▁▁▁▁▁▁▁▁▁▁▁▁"@, "███▁▁▁▁▁▁▁▁▁▁▁▁▁▁▁▁▁"@, "████▁▁▁▁▁▁▁▁▁▁▁▁▁▁▁▁"@, "██████▁▁▁▁▁▁▁▁▁▁▁▁▁▁"@, "██████▁▁▁▁▁▁▁▁▁▁▁▁▁▁"@, "███████▁▁▁▁▁▁▁▁▁▁▁▁▁"@, "████████▁▁▁▁▁▁▁▁▁▁▁▁"@, "█████████▁▁▁▁▁▁▁▁▁▁▁"@, "█████████▁▁▁▁▁▁▁▁▁▁▁"@, "██████████▁▁▁▁▁▁▁▁▁▁"@, "███████████▁▁▁▁▁▁▁▁▁"@, "█████████████▁▁▁▁▁▁▁"@, "██████████████▁▁▁▁▁▁"@, "██████████████▁▁▁▁▁▁"@, "▁██████████████▁▁▁▁▁"@, "▁██████████████▁▁▁▁▁"@, "▁██████████████▁▁▁▁▁"@, "▁▁██████████████▁▁▁▁"@, "▁▁▁██████████████▁▁▁"@, "▁▁▁▁█████████████▁▁▁"@, "▁▁▁▁██████████████▁▁"@, "▁▁▁▁██████████████▁▁"@, "▁▁▁▁▁██████████████▁"@, "▁▁▁▁▁██████████████▁"@, "▁▁▁▁▁██████████████▁"@, "▁▁▁▁▁▁██████████████"@, "▁▁▁▁▁▁██████████████"@, "▁▁▁▁▁▁▁█████████████"@, "▁▁▁▁▁▁▁█████████████"@, "▁▁▁▁▁▁▁▁████████████"@, "▁▁▁▁▁▁▁▁████████████"@, "▁▁▁▁▁▁▁▁▁███████████"@, "▁▁▁▁▁▁▁▁▁███████████"@, "▁▁▁▁▁▁▁▁▁▁██████████"@, "▁▁▁▁▁▁▁▁▁▁██████████"@, "▁▁▁▁▁▁▁▁▁▁▁▁████████"@, "▁▁▁▁▁▁▁▁▁▁▁▁▁███████"@, "▁▁▁▁▁▁▁▁▁▁▁▁▁▁██████"@, "▁▁▁▁▁▁▁▁▁▁▁▁▁▁▁█████"@, "▁▁▁▁▁▁▁▁▁▁▁▁▁▁▁█████"@, "█▁▁▁▁▁▁▁▁▁▁▁▁▁▁▁████"@, "██▁▁▁▁▁▁▁▁▁▁▁▁▁▁▁███"@, "██▁▁▁▁▁▁▁▁▁▁▁▁▁▁▁███"@, "███▁▁▁▁▁▁▁▁▁▁▁▁▁▁███"@, "████▁▁▁▁▁▁▁▁▁▁▁▁▁▁██"@, "█████▁▁▁▁▁▁▁▁▁▁▁▁▁▁█"@, "█████▁▁▁▁▁▁▁▁▁▁▁▁▁▁█"@, "██████▁▁▁▁▁▁▁▁▁▁▁▁▁█"@, "████████▁▁▁▁▁▁▁▁▁▁▁▁"@, "█████████▁▁▁▁▁▁▁▁▁▁▁"@, "█████████▁▁▁▁▁▁▁▁▁▁▁"@, "█████████▁▁▁▁▁▁▁▁▁▁▁"@, "█████████▁▁▁▁▁▁▁▁▁▁▁"@, "███████████▁▁▁▁▁▁▁▁▁"@, "████████████▁▁▁▁▁▁▁▁"@, "████████████▁▁▁▁▁▁▁▁"@, "██████████████▁▁▁▁▁▁"@, "██████████████▁▁▁▁▁▁"@, "▁██████████████▁▁▁▁▁"@, "▁██████████████▁▁▁▁▁"@, "▁▁▁█████████████▁▁▁▁"@, "▁▁▁▁▁████████████▁▁▁"@, "▁▁▁▁▁████████████▁▁▁"@],
{
    let mut frames: Vec<String> = Vec::new();
    frames.push(String::from_str("█▁▁▁▁▁▁▁▁▁▁▁▁▁▁▁▁▁▁▁"));
    frames.push(String::from_str("██▁▁▁▁▁▁▁▁▁▁▁▁▁▁▁▁▁▁"));
    frames.push(String::from_str("███▁▁▁▁▁▁▁▁▁▁▁▁▁▁▁▁▁"));
    frames.push(String::from_str("████▁▁▁▁▁▁▁▁▁▁▁▁▁▁▁▁"));
    frames.push(String::from_str("██████▁▁▁▁▁▁▁▁▁▁▁▁▁▁"));
    frames.push(String::from_str("██████▁▁▁▁▁▁▁▁▁▁▁▁▁▁"));
    frames.push(String::from_str("███████▁▁▁▁▁▁▁▁▁▁▁▁▁"));
    frames.push(String::from_str("████████▁▁▁▁▁▁▁▁▁▁▁▁"));
    frames.push(String::from_str("█████████▁▁▁▁▁▁▁▁▁▁▁"));
    frames.push(String::from_str("█████████▁▁▁▁▁▁▁▁▁▁▁"));
    frames.push(String::from_str("██████████▁▁▁▁▁▁▁▁▁▁"));
    frames.push(String::from_str("███████████▁▁▁▁▁▁▁▁▁"));
    frames.push(String::from_str("█████████████▁▁▁▁▁▁▁"));
    frames.push(String::from_str("██████████████▁▁▁▁▁▁"));
    frames.push(String::from_str("██████████████▁▁▁▁▁▁"));
    frames.push(String::from_str("▁██████████████▁▁▁▁▁"));
    frames.push(String::from_str("▁██████████████▁▁▁▁▁"));
    frames.push(String::from_str("▁██████████████▁▁▁▁▁"));
    frames.push(String::from_str("▁▁██████████████▁▁▁▁"));
    frames.push(String::from_str("▁▁▁██████████████▁▁▁"));
    frames.push(String::from_str("▁▁▁▁█████████████▁▁▁"));
    frames.push(String::from_str("▁▁▁▁██████████████▁▁"));
    frames.push(String::from_str("▁▁▁▁██████████████▁▁"));
    frames.push(String::from_str("▁▁▁▁▁██████████████▁"));
    frames.push(String::from_str("▁▁▁▁▁██████████████▁"));
    frames.push(String::from_str("▁▁▁▁▁██████████████▁"));
    frames.push(String::from_str("▁▁▁▁▁▁██████████████"));
    frames.push(String::from_str("▁▁▁▁▁▁██████████████"));
    frames.push(String::from_str("▁▁▁▁▁▁▁█████████████"));
    frames.push(String::from_str("▁▁▁▁▁▁▁█████████████"));
    frames.push(String::from_str("▁▁▁▁▁▁▁▁████████████"));
    frames.push(String::from_str("▁▁▁▁▁▁▁▁████████████"));
    frames.push(String::from_str("▁▁▁▁▁▁▁▁▁███████████"));
    frames.push(String::from_str("▁▁▁▁▁▁▁▁▁███████████"));
    frames.push(String::from_str("▁▁▁▁▁▁▁▁▁▁██████████"));
    frames.push(String::from_str("▁▁▁▁▁▁▁▁▁▁██████████"));
    frames.push(String::from_str("▁▁▁▁▁▁▁▁▁▁▁▁████████"));
    frames.push(String::from_str("▁▁▁▁▁▁▁▁▁▁▁▁▁███████"));
    frames.push(String::from_str("▁▁▁▁▁▁▁▁▁▁▁▁▁▁██████"));
    frames.push(String::from_str("▁▁▁▁▁▁▁▁▁▁▁▁▁▁▁█████"));
    frames.push(String::from_str("▁▁▁▁▁▁▁▁▁▁▁▁▁▁▁█████"));
    frames.push(String::from_str("█▁▁▁▁▁▁▁▁▁▁▁▁▁▁▁████"));
    frames.push(String::from_str("██▁▁▁▁▁▁▁▁▁▁▁▁▁▁▁███"));
    frames.push(String::from_str("██▁▁▁▁▁▁▁▁▁▁▁▁▁▁▁███"));
    frames.push(String::from_str("███▁▁▁▁▁▁▁▁▁▁▁▁▁▁███"));
    frames.push(String::from_str("████▁▁▁▁▁▁▁▁▁▁▁▁▁▁██"));
    frames.push(String::from_str("█████▁▁▁▁▁▁▁▁▁▁▁▁▁▁█"));
    frames.push(String::from_str("█████▁▁▁▁▁▁▁▁▁▁▁▁▁▁█"));
    frames.push(String::from_str("██████▁▁▁▁▁▁▁▁▁▁▁▁▁█"));
    frames.push(String::from_str("████████▁▁▁▁▁▁▁▁▁▁▁▁"));
    frames.push(String::from_str("█████████▁▁▁▁▁▁▁▁▁▁▁"));
    frames.push(String::from_str("█████████▁▁▁▁▁▁▁▁▁▁▁"));
    frames.push(String::from_str("█████████▁▁▁▁▁▁▁▁▁▁▁"));
    frames.push(String::from_str("█████████▁▁▁▁▁▁▁▁▁▁▁"));
    frames.push(String::from_str("███████████▁▁▁▁▁▁▁▁▁"));
    frames.push(String::from_str("████████████▁▁▁▁▁▁▁▁"));
    frames.push(String::from_str("████████████▁▁▁▁▁▁▁▁"));
    frames.push(String::from_str("██████████████▁▁▁▁▁▁"));
    frames.push(String::from_str("██████████████▁▁▁▁▁▁"));
    frames.push(String::from_str("▁██████████████▁▁▁▁▁"));
    frames.push(String::from_str("▁██████████████▁▁▁▁▁"));
    frames.push(String::from_str("▁▁▁█████████████▁▁▁▁"));
    frames.push(String::from_str("▁▁▁▁▁████████████▁▁▁"));
    frames.push(String::from_str("▁▁▁▁▁████████████▁▁▁"));
    assert(strings_view(frames@) =~= seq!["█▁▁▁▁▁▁▁▁▁▁▁▁▁▁▁▁▁▁▁"@, "██▁▁▁▁▁▁▁▁▁▁▁▁▁▁▁▁▁▁"@, "███▁▁▁▁▁▁▁▁▁▁▁▁▁▁▁▁▁"@, "████▁▁▁▁▁▁▁▁▁▁▁▁▁▁▁▁"@, "██████▁▁▁▁▁▁▁▁▁▁▁▁▁▁"@, "██████▁▁▁▁▁▁▁▁▁▁▁▁▁▁"@, "███████▁▁▁▁▁▁▁▁▁▁▁▁▁"@, "████████▁▁▁▁▁▁▁▁▁▁▁▁"@, "█████████▁▁▁▁▁▁▁▁▁▁▁"@, "█████████▁▁▁▁▁▁▁▁▁▁▁"@, "██████████▁▁▁▁▁▁▁▁▁▁"@, "███████████▁▁▁▁▁▁▁▁▁"@, "█████████████▁▁▁▁▁▁▁"@, "██████████████▁▁▁▁▁▁"@, "██████████████▁▁▁▁▁▁"@, "▁██████████████▁▁▁▁▁"@, "▁██████████████▁▁▁▁▁"@, "▁██████████████▁▁▁▁▁"@, "▁▁██████████████▁▁▁▁"@, "▁▁▁██████████████▁▁▁"@, "▁▁▁▁█████████████▁▁▁"@, "▁▁▁▁██████████████▁▁"@, "▁▁▁▁██████████████▁▁"@, "▁▁▁▁▁██████████████▁"@, "▁▁▁▁▁██████████████▁"@, "▁▁▁▁▁██████████████▁"@, "▁▁▁▁▁▁██████████████"@, "▁▁▁▁▁▁██████████████"@, "▁▁▁▁▁▁▁█████████████"@, "▁▁▁▁▁▁▁█████████████"@, "▁▁▁▁▁▁▁▁████████████"@, "▁▁▁▁▁▁▁▁████████████"@, "▁▁▁▁▁▁▁▁▁███████████"@, "▁▁▁▁▁▁▁▁▁███████████"@, "▁▁▁▁▁▁▁▁▁▁██████████"@, "▁▁▁▁▁▁▁▁▁▁██████████"@, "▁▁▁▁▁▁▁▁▁▁▁▁████████"@, "▁▁▁▁▁▁▁▁▁▁▁▁▁███████"@, "▁▁▁▁▁▁▁▁▁▁▁▁▁▁██████"@, "▁▁▁▁▁▁▁▁▁▁▁▁▁▁▁█████"@, "▁▁▁▁▁▁▁▁▁▁▁▁▁▁▁█████"@, "█▁▁▁▁▁▁▁▁▁▁▁▁▁▁▁████"@, "██▁▁▁▁▁▁▁▁▁▁▁▁▁▁▁███"@, "██▁▁▁▁▁▁▁▁▁▁▁▁▁▁▁███"@, "███▁▁▁▁▁▁▁▁▁▁▁▁▁▁███"@, "████▁▁▁▁▁▁▁▁▁▁▁▁▁▁██"@, "█████▁▁▁▁▁▁▁▁▁▁▁▁▁▁█"@, "█████▁▁▁▁▁▁▁▁▁▁▁▁▁▁█"@, "██████▁▁▁▁▁▁▁▁▁▁▁▁▁█"@, "████████▁▁▁▁▁▁▁▁▁▁▁▁"@, "█████████▁▁▁▁▁▁▁▁▁▁▁"@, "█████████▁▁▁▁▁▁▁▁▁▁▁"@, "█████████▁▁▁▁▁▁▁▁▁▁▁"@, "█████████▁▁▁▁▁▁▁▁▁▁▁"@, "███████████▁▁▁▁▁▁▁▁▁"@, "████████████▁▁▁▁▁▁▁▁"@, "████████████▁▁▁▁▁▁▁▁"@, "██████████████▁▁▁▁▁▁"@, "██████████████▁▁▁▁▁▁"@, "▁██████████████▁▁▁▁▁"@, "▁██████████████▁▁▁▁▁"@, "▁▁▁█████████████▁▁▁▁"@, "▁▁▁▁▁████████████▁▁▁"@, "▁▁▁▁▁████████████▁▁▁"@]);
    frames
}

fn material_frames_1() -> (frames: Vec<String>)
    ensures
        strings_view(frames@) == seq!["▁▁▁▁▁▁███████████▁▁▁"@, "▁▁▁▁▁▁▁▁█████████▁▁▁"@, "▁▁▁▁▁▁▁▁█████████▁▁▁"@, "▁▁▁▁▁▁▁▁▁█████████▁▁"@, "▁▁▁▁▁▁▁▁▁█████████▁▁"@, "▁▁▁▁▁▁▁▁▁▁█████████▁"@, "▁▁▁▁▁▁▁▁▁▁▁████████▁"@, "▁▁▁▁▁▁▁▁▁▁▁████████▁"@, "▁▁▁▁▁▁▁▁▁▁▁▁███████▁"@, "▁▁▁▁▁▁▁▁▁▁▁▁███████▁"@, "▁▁▁▁▁▁▁▁▁▁▁▁▁███████"@, "▁▁▁▁▁▁▁▁▁▁▁▁▁███████"@, "▁▁▁▁▁▁▁▁▁▁▁▁▁▁▁█████"@, "▁▁▁▁▁▁▁▁▁▁▁▁▁▁▁▁████"@, "▁▁▁▁▁▁▁▁▁▁▁▁▁▁▁▁████"@, "▁▁▁▁▁▁▁▁▁▁▁▁▁▁▁▁████"@, "▁▁▁▁▁▁▁▁▁▁▁▁▁▁▁▁▁███"@, "▁▁▁▁▁▁▁▁▁▁▁▁▁▁▁▁▁███"@, "▁▁▁▁▁▁▁▁▁▁▁▁▁▁▁▁▁▁██"@, "▁▁▁▁▁▁▁▁▁▁▁▁▁▁▁▁▁▁██"@, "▁▁▁▁▁▁▁▁▁▁▁▁▁▁▁▁▁▁██"@, "▁▁▁▁▁▁▁▁▁▁▁▁▁▁▁▁▁▁▁█"@, "▁▁▁▁▁▁▁▁▁▁▁▁▁▁▁▁▁▁▁█"@, "▁▁▁▁▁▁▁▁▁▁▁▁▁▁▁▁▁▁▁█"@, "▁▁▁▁▁▁▁▁▁▁▁▁▁▁▁▁▁▁▁▁"@, "▁▁▁▁▁▁▁▁▁▁▁▁▁▁▁▁▁▁▁▁"@, "▁▁▁▁▁▁▁▁▁▁▁▁▁▁▁▁▁▁▁▁"@, "▁▁▁▁▁▁▁▁▁▁▁▁▁▁▁▁▁▁▁▁"@],
{
    let mut frames: Vec<String> = Vec::new();
    frames.push(String::from_str("▁▁▁▁▁▁███████████▁▁▁"));
    frames.push(String::from_str("▁▁▁▁▁▁▁▁█████████▁▁▁"));
    frames.push(String::from_str("▁▁▁▁▁▁▁▁█████████▁▁▁"));
    frames.push(String::from_str("▁▁▁▁▁▁▁▁▁█████████▁▁"));
    frames.push(String::from_str("▁▁▁▁▁▁▁▁▁█████████▁▁"));
    frames.push(String::from_str("▁▁▁▁▁▁▁▁▁▁█████████▁"));
    frames.push(String::from_str("▁▁▁▁▁▁▁▁▁▁▁████████▁"));
    frames.push(String::from_str("▁▁▁▁▁▁▁▁▁▁▁████████▁"));
    frames.push(String::from_str("▁▁▁▁▁▁▁▁▁▁▁▁███████▁"));
    frames.push(String::from_str("▁▁▁▁▁▁▁▁▁▁▁▁███████▁"));
    frames.push(String::from_str("▁▁▁▁▁▁▁▁▁▁▁▁▁███████"));
    frames.push(String::from_str("▁▁▁▁▁▁▁▁▁▁▁▁▁███████"));
    frames.push(String::from_str("▁▁▁▁▁▁▁▁▁▁▁▁▁▁▁█████"));
    frames.push(String::from_str("▁▁▁▁▁▁▁▁▁▁▁▁▁▁▁▁████"));
    frames.push(String::from_str("▁▁▁▁▁▁▁▁▁▁▁▁▁▁▁▁████"));
    frames.push(String::from_str("▁▁▁▁▁▁▁▁▁▁▁▁▁▁▁▁████"));
    frames.push(String::from_str("▁▁▁▁▁▁▁▁▁▁▁▁▁▁▁▁▁███"));
    frames.push(String::from_str("▁▁▁▁▁▁▁▁▁▁▁▁▁▁▁▁▁███"));
    frames.push(String::from_str("▁▁▁▁▁▁▁▁▁▁▁▁▁▁▁▁▁▁██"));
    frames.push(String::from_str("▁▁▁▁▁▁▁▁▁▁▁▁▁▁▁▁▁▁██"));
    frames.push(String::from_str("▁▁▁▁▁▁▁▁▁▁▁▁▁▁▁▁▁▁██"));
    frames.push(String::from_str("▁▁▁▁▁▁▁▁▁▁▁▁▁▁▁▁▁▁▁█"));
    frames.push(String::from_str("▁▁▁▁▁▁▁▁▁▁▁▁▁▁▁▁▁▁▁█"));
    frames.push(String::from_str("▁▁▁▁▁▁▁▁▁▁▁▁▁▁▁▁▁▁▁█"));
    frames.push(String::from_str("▁▁▁▁▁▁▁▁▁▁▁▁▁▁▁▁▁▁▁▁"));
    frames.push(String::from_str("▁▁▁▁▁▁▁▁▁▁▁▁▁▁▁▁▁▁▁▁"));
    frames.push(String::from_str("▁▁▁▁▁▁▁▁▁▁▁▁▁▁▁▁▁▁▁▁"));
    frames.push(String::from_str("▁▁▁▁▁▁▁▁▁▁▁▁▁▁▁▁▁▁▁▁"));
    assert(strings_view(frames@) =~= seq!["▁▁▁▁▁▁███████████▁▁▁"@, "▁▁▁▁▁▁▁▁█████████▁▁▁"@, "▁▁▁▁▁▁▁▁█████████▁▁▁"@, "▁▁▁▁▁▁▁▁▁█████████▁▁"@, "▁▁▁▁▁▁▁▁▁█████████▁▁"@, "▁▁▁▁▁▁▁▁▁▁█████████▁"@, "▁▁▁▁▁▁▁▁▁▁▁████████▁"@, "▁▁▁▁▁▁▁▁▁▁▁████████▁"@, "▁▁▁▁▁▁▁▁▁▁▁▁███████▁"@, "▁▁▁▁▁▁▁▁▁▁▁▁███████▁"@, "▁▁▁▁▁▁▁▁▁▁▁▁▁███████"@, "▁▁▁▁▁▁▁▁▁▁▁▁▁███████"@, "▁▁▁▁▁▁▁▁▁▁▁▁▁▁▁█████"@, "▁▁▁▁▁▁▁▁▁▁▁▁▁▁▁▁████"@, "▁▁▁▁▁▁▁▁▁▁▁▁▁▁▁▁████"@, "▁▁▁▁▁▁▁▁▁▁▁▁▁▁▁▁████"@, "▁▁▁▁▁▁▁▁▁▁▁▁▁▁▁▁▁███"@, "▁▁▁▁▁▁▁▁▁▁▁▁▁▁▁▁▁███"@, "▁▁▁▁▁▁▁▁▁▁▁▁▁▁▁▁▁▁██"@, "▁▁▁▁▁▁▁▁▁▁▁▁▁▁▁▁▁▁██"@, "▁▁▁▁▁▁▁▁▁▁▁▁▁▁▁▁▁▁██"@, "▁▁▁▁▁▁▁▁▁▁▁▁▁▁▁▁▁▁▁█"@, "▁▁▁▁▁▁▁▁▁▁▁▁▁▁▁▁▁▁▁█"@, "▁▁▁▁▁▁▁▁▁▁▁▁▁▁▁▁▁▁▁█"@, "▁▁▁▁▁▁▁▁▁▁▁▁▁▁▁▁▁▁▁▁"@, "▁▁▁▁▁▁▁▁▁▁▁▁▁▁▁▁▁▁▁▁"@, "▁▁▁▁▁▁▁▁▁▁▁▁▁▁▁▁▁▁▁▁"@, "▁▁▁▁▁▁▁▁▁▁▁▁▁▁▁▁▁▁▁▁"@]);
    frames
}

fn dwarf_fortress_frames_0() -> (frames: Vec<String>)
    ensures
        strings_view(frames@) == seq![" ██████£££  "@, "☺██████£££  "@, "☺██████£££  "@, "☺▓█████£££  "@, "☺▓█████£££  "@, "☺▒█████£££  "@, "☺▒█████£££  "@, "☺░█████£££  "@, "☺░█████£££  "@, "☺ █████£££  "@, " ☺█████£££  "@, " ☺█████£££  "@, " ☺▓████£££  "@, " ☺▓████£££  "@, " ☺▒████£££  "@, " ☺▒████£££  "@, " ☺░████£££  "@, " ☺░████£££  "@, " ☺ ████£££  "@, "  ☺████£££  "@, "  ☺████£££  "@, "  ☺▓███£££  "@, "  ☺▓███£££  "@, "  ☺▒███£££  "@, "  ☺▒███£££  "@, "  ☺░███£££  "@, "  ☺░███£££  "@, "  ☺ ███£££  "@, "   ☺███£££  "@, "   ☺███£££  "@, "   ☺▓██£££  "@, "   ☺▓██£££  "@, "   ☺▒██£££  "@, "   ☺▒██£££  "@, "   ☺░██£££  "@, "   ☺░██£££  "@, "   ☺ ██£££  "@, "    ☺██£££  "@, "    ☺██£££  "@, "    ☺▓█£££  "@, "    ☺▓█£££  "@, "    ☺▒█£££  "@, "    ☺▒█£££  "@, "    ☺░█£££  "@, "    ☺░█£££  "@, "    ☺ █£££  "@, "     ☺█£££  "@, "     ☺█£££  "@, "     ☺▓£££  "@, "     ☺▓£££  "@, "     ☺▒£££  "@, "     ☺▒£££  "@, "     ☺░£££  "@, "     ☺░£££  "@, "     ☺ £££  "@, "      ☺£££  "@, "      ☺£££  "@, "      ☺▓££  "@, "      ☺▓££  "@, "      ☺▒££  "@, "      ☺▒££  "@, "      ☺░££  "@, "      ☺░££  "@, "      ☺ ££  "@],
{
    let mut frames: Vec<String> = Vec::new();
    frames.push(String::from_str(" ██████£££  "));
    frames.push(String::from_str("☺██████£££  "));
    frames.push(String::from_str("☺██████£££  "));
    frames.push(String::from_str("☺▓█████£££  "));
    frames.push(String::from_str("☺▓█████£££  "));
    frames.push(String::from_str("☺▒█████£££  "));
    frames.push(String::from_str("☺▒█████£££  "));
    frames.push(String::from_str("☺░█████£££  "));
    frames.push(String::from_str("☺░█████£££  "));
    frames.push(String::from_str("☺ █████£££  "));
    frames.push(String::from_str(" ☺█████£££  "));
    frames.push(String::from_str(" ☺█████£££  "));
    frames.push(String::from_str(" ☺▓████£££  "));
    frames.push(String::from_str(" ☺▓████£££  "));
    frames.push(String::from_str(" ☺▒████£££  "));
    frames.push(String::from_str(" ☺▒████£££  "));
    frames.push(String::from_str(" ☺░████£££  "));
    frames.push(String::from_str(" ☺░████£££  "));
    frames.push(String::from_str(" ☺ ████£££  "));
    frames.push(String::from_str("  ☺████£££  "));
    frames.push(String::from_str("  ☺████£££  "));
    frames.push(String::from_str("  ☺▓███£££  "));
    frames.push(String::from_str("  ☺▓███£££  "));
    frames.push(String::from_str("  ☺▒███£££  "));
    frames.push(String::from_str("  ☺▒███£££  "));
    frames.push(String::from_str("  ☺░███£££  "));
    frames.push(String::from_str("  ☺░███£££  "));
    frames.push(String::from_str("  ☺ ███£££  "));
    frames.push(String::from_str("   ☺███£££  "));
    frames.push(String::from_str("   ☺███£££  "));
    frames.push(String::from_str("   ☺▓██£££  "));
    frames.push(String::from_str("   ☺▓██£££  "));
    frames.push(String::from_str("   ☺▒██£££  "));
    frames.push(String::from_str("   ☺▒██£££  "));
    frames.push(String::from_str("   ☺░██£££  "));
    frames.push(String::from_str("   ☺░██£££  "));
    frames.push(String::from_str("   ☺ ██£££  "));
    frames.push(String::from_str("    ☺██£££  "));
    frames.push(String::from_str("    ☺██£££  "));
    frames.push(String::from_str("    ☺▓█£££  "));
    frames.push(String::from_str("    ☺▓█£££  "));
    frames.push(String::from_str("    ☺▒█£££  "));
    frames.push(String::from_str("    ☺▒█£££  "));
    frames.push(String::from_str("    ☺░█£££  "));
    frames.push(String::from_str("    ☺░█£££  "));
    frames.push(String::from_str("    ☺ █£££  "));
    frames.push(String::from_str("     ☺█£££  "));
    frames.push(String::from_str("     ☺█£££  "));
    frames.push(String::from_str("     ☺▓£££  "));
    frames.push(String::from_str("     ☺▓£££  "));
    frames.push(String::from_str("     ☺▒£££  "));
    frames.push(String::from_str("     ☺▒£££  "));
    frames.push(String::from_str("     ☺░£££  "));
    frames.push(String::from_str("     ☺░£££  "));
    frames.push(String::from_str("     ☺ £££  "));
    frames.push(String::from_str("      ☺£££  "));
    frames.push(String::from_str("      ☺£££  "));
    frames.push(String::from_str("      ☺▓££  "));
    frames.push(String::from_str("      ☺▓££  "));
    frames.push(String::from_str("      ☺▒££  "));
    frames.push(String::from_str("      ☺▒££  "));
    frames.push(String::from_str("      ☺░££  "));
    frames.push(String::from_str("      ☺░££  "));
    frames.push(String::from_str("      ☺ ££  "));
    assert(strings_view(frames@) =~= seq![" ██████£££  "@, "☺██████£££  "@, "☺██████£££  "@, "☺▓█████£££  "@, "☺▓█████£££  "@, "☺▒█████£££  "@, "☺▒█████£££  "@, "☺░█████£££  "@, "☺░█████£££  "@, "☺ █████£££  "@, " ☺█████£££  "@, " ☺█████£££  "@, " ☺▓████£££  "@, " ☺▓████£££  "@, " ☺▒████£££  "@, " ☺▒████£££  "@, " ☺░████£££  "@, " ☺░████£££  "@, " ☺ ████£££  "@, "  ☺████£££  "@, "  ☺████£££  "@, "  ☺▓███£££  "@, "  ☺▓███£££  "@, "  ☺▒███£££  "@, "  ☺▒███£££  "@, "  ☺░███£££  "@, "  ☺░███£££  "@, "  ☺ ███£££  "@, "   ☺███£££  "@, "   ☺███£££  "@, "   ☺▓██£££  "@, "   ☺▓██£££  "@, "   ☺▒██£££  "@, "   ☺▒██£££  "@, "   ☺░██£££  "@, "   ☺░██£££  "@, "   ☺ ██£££  "@, "    ☺██£££  "@, "    ☺██£££  "@, "    ☺▓█£££  "@, "    ☺▓█£££  "@, "    ☺▒█£££  "@, "    ☺▒█£££  "@, "    ☺░█£££  "@, "    ☺░█£££  "@, "    ☺ █£££  "@, "     ☺█£££  "@, "     ☺█£££  "@, "     ☺▓£££  "@, "     ☺▓£££  "@, "     ☺▒£££  "@, "     ☺▒£££  "@, "     ☺░£££  "@, "     ☺░£££  "@, "     ☺ £££  "@, "      ☺£££  "@, "      ☺£££  "@, "      ☺▓££  "@, "      ☺▓££  "@, "      ☺▒££  "@, "      ☺▒££  "@, "      ☺░££  "@, "      ☺░££  "@, "      ☺ ££  "@]);
    frames
}

fn dwarf_fortress_frames_1() -> (frames: Vec<String>)
    ensures
        strings_view(frames@) == seq!["       ☺££  "@, "       ☺££  "@, "       ☺▓£  "@, "       ☺▓£  "@, "       ☺▒£  "@, "       ☺▒£  "@, "       ☺░£  "@, "       ☺░£  "@, "       ☺ £  "@, "        ☺£  "@, "        ☺£  "@, "        ☺▓  "@, "        ☺▓  "@, "        ☺▒  "@, "        ☺▒  "@, "        ☺░  "@, "        ☺░  "@, "        ☺   "@, "        ☺  &"@, "        ☺ ☼&"@, "       ☺ ☼ &"@, "       ☺☼  &"@, "      ☺☼  & "@, "      ‼   & "@, "     ☺   &  "@, "    ‼    &  "@, "   ☺    &   "@, "  ‼     &   "@, " ☺     &    "@, "‼      &    "@, "      &     "@, "      &     "@, "     &   ░  "@, "     &   ▒  "@, "    &    ▓  "@, "    &    £  "@, "   &    ░£  "@, "   &    ▒£  "@, "  &     ▓£  "@, "  &     ££  "@, " &     ░££  "@, " &     ▒££  "@, "&      ▓££  "@, "&      £££  "@, "      ░£££  "@, "      ▒£££  "@, "      ▓£££  "@, "      █£££  "@, "     ░█£££  "@, "     ▒█£££  "@, "     ▓█£££  "@, "     ██£££  "@, "    ░██£££  "@, "    ▒██£££  "@, "    ▓██£££  "@, "    ███£££  "@, "   ░███£££  "@, "   ▒███£££  "@, "   ▓███£££  "@, "   ████£££  "@, "  ░████£££  "@, "  ▒████£££  "@, "  ▓████£££  "@, "  █████£££  "@],
{
    let mut frames: Vec<String> = Vec::new();
    frames.push(String::from_str("       ☺££  "));
    frames.push(String::from_str("       ☺££  "));
    frames.push(String::from_str("       ☺▓£  "));
    frames.push(String::from_str("       ☺▓£  "));
    frames.push(String::from_str("       ☺▒£  "));
    frames.push(String::from_str("       ☺▒£  "));
    frames.push(String::from_str("       ☺░£  "));
    frames.push(String::from_str("       ☺░£  "));
    frames.push(String::from_str("       ☺ £  "));
    frames.push(String::from_str("        ☺£  "));
    frames.push(String::from_str("        ☺£  "));
    frames.push(String::from_str("        ☺▓  "));
    frames.push(String::from_str("        ☺▓  "));
    frames.push(String::from_str("        ☺▒  "));
    frames.push(String::from_str("        ☺▒  "));
    frames.push(String::from_str("        ☺░  "));
    frames.push(String::from_str("        ☺░  "));
    frames.push(String::from_str("        ☺   "));
    frames.push(String::from_str("        ☺  &"));
    frames.push(String::from_str("        ☺ ☼&"));
    frames.push(String::from_str("       ☺ ☼ &"));
    frames.push(String::from_str("       ☺☼  &"));
    frames.push(String::from_str("      ☺☼  & "));
    frames.push(String::from_str("      ‼   & "));
    frames.push(String::from_str("     ☺   &  "));
    frames.push(String::from_str("    ‼    &  "));
    frames.push(String::from_str("   ☺    &   "));
    frames.push(String::from_str("  ‼     &   "));
    frames.push(String::from_str(" ☺     &    "));
    frames.push(String::from_str("‼      &    "));
    frames.push(String::from_str("      &     "));
    frames.push(String::from_str("      &     "));
    frames.push(String::from_str("     &   ░  "));
    frames.push(String::from_str("     &   ▒  "));
    frames.push(String::from_str("    &    ▓  "));
    frames.push(String::from_str("    &    £  "));
    frames.push(String::from_str("   &    ░£  "));
    frames.push(String::from_str("   &    ▒£  "));
    frames.push(String::from_str("  &     ▓£  "));
    frames.push(String::from_str("  &     ££  "));
    frames.push(String::from_str(" &     ░££  "));
    frames.push(String::from_str(" &     ▒££  "));
    frames.push(String::from_str("&      ▓££  "));
    frames.push(String::from_str("&      £££  "));
    frames.push(String::from_str("      ░£££  "));
    frames.push(String::from_str("      ▒£££  "));
    frames.push(String::from_str("      ▓£££  "));
    frames.push(String::from_str("      █£££  "));
    frames.push(String::from_str("     ░█£££  "));
    frames.push(String::from_str("     ▒█£££  "));
    frames.push(String::from_str("     ▓█£££  "));
    frames.push(String::from_str("     ██£££  "));
    frames.push(String::from_str("    ░██£££  "));
    frames.push(String::from_str("    ▒██£££  "));
    frames.push(String::from_str("    ▓██£££  "));
    frames.push(String::from_str("    ███£££  "));
    frames.push(String::from_str("   ░███£££  "));
    frames.push(String::from_str("   ▒███£££  "));
    frames.push(String::from_str("   ▓███£££  "));
    frames.push(String::from_str("   ████£££  "));
    frames.push(String::from_str("  ░████£££  "));
    frames.push(String::from_str("  ▒████£££  "));
    frames.push(String::from_str("  ▓████£££  "));
    frames.push(String::from_str("  █████£££  "));
    assert(strings_view(frames@) =~= seq!["       ☺££  "@, "       ☺££  "@, "       ☺▓£  "@, "       ☺▓£  "@, "       ☺▒£  "@, "       ☺▒£  "@, "       ☺░£  "@, "       ☺░£  "@, "       ☺ £  "@, "        ☺£  "@, "        ☺£  "@, "        ☺▓  "@, "        ☺▓  "@, "        ☺▒  "@, "        ☺▒  "@, "        ☺░  "@, "        ☺░  "@, "        ☺   "@, "        ☺  &"@, "        ☺ ☼&"@, "       ☺ ☼ &"@, "       ☺☼  &"@, "      ☺☼  & "@, "      ‼   & "@, "     ☺   &  "@, "    ‼    &  "@, "   ☺    &   "@, "  ‼     &   "@, " ☺     &    "@, "‼      &    "@, "      &     "@, "      &     "@, "     &   ░  "@, "     &   ▒  "@, "    &    ▓  "@, "    &    £  "@, "   &    ░£  "@, "   &    ▒£  "@, "  &     ▓£  "@, "  &     ££  "@, " &     ░££  "@, " &     ▒££  "@, "&      ▓££  "@, "&      £££  "@, "      ░£££  "@, "      ▒£££  "@, "      ▓£££  "@, "      █£££  "@, "     ░█£££  "@, "     ▒█£££  "@, "     ▓█£££  "@, "     ██£££  "@, "    ░██£££  "@, "    ▒██£££  "@, "    ▓██£££  "@, "    ███£££  "@, "   ░███£££  "@, "   ▒███£££  "@, "   ▓███£££  "@, "   ████£££  "@, "  ░████£££  "@, "  ▒████£££  "@, "  ▓████£££  "@, "  █████£££  "@]);
    frames
}

fn dwarf_fortress_frames_2() -> (frames: Vec<String>)
    ensures
        strings_view(frames@) == seq![" ░█████£££  "@, " ▒█████£££  "@, " ▓█████£££  "@, " ██████£££  "@, " ██████£££  "@],
{
    let mut frames: Vec<String> = Vec::new();
    frames.push(String::from_str(" ░█████£££  "));
    frames.push(String::from_str(" ▒█████£££  "));
    frames.push(String::from_str(" ▓█████£££  "));
    frames.push(String::from_str(" ██████£££  "));
    frames.push(String::from_str(" ██████£££  "));
    assert(strings_view(frames@) =~= seq![" ░█████£££  "@, " ▒█████£££  "@, " ▓█████£££  "@, " ██████£££  "@, " ██████£££  "@]);
    frames
}

} // verus!

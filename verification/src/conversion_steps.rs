//! A conversion as a sequence of steps. The caller performs each action
//! (running Ghostscript, inspecting a file, keeping diagnostic copies,
//! attaching the PDF/X identification) and reports what came of it; each
//! step decides what follows.
use vstd::prelude::*;
use crate::conversion::{ConversionMode, RenderingIntent};
use crate::error::OpenPrintPdfError;
use crate::ghostscript::{
    GhostscriptPass, attaches_identification, content_dropped, conversion_passes, image_loss_text, pass_args,
    pass_arguments, pass_output, pass_stage, passes_of, stage_image_loss_error,
};
use crate::models::{InspectionView, PdfInspectionResult};
use crate::text::strings_view;
use crate::validator::{pixel_sum, pixels_fit};

verus! {

/// Where a conversion stands.
#[derive(Clone, Copy, Debug, PartialEq, Eq, Structural)]
pub enum ConversionPhase {
    /// Run `k` of the mode's runs is under way.
    Running(usize),
    /// The output of the checked run `k` is being inspected.
    Inspecting(usize),
    /// Run `k` lost image content; the outputs of the checked runs so far
    /// are being kept as diagnostics.
    Keeping(usize),
    /// The PDF/X-1a identification is being attached.
    Attaching,
    /// Nothing is left to do.
    Finished,
}

/// What the caller reports after an action.
pub enum ConversionEvent {
    /// A run finished, taking `duration_ms`, with these warning lines.
    Ran { duration_ms: u64, warnings: Vec<String> },
    /// The output of the checked run was inspected.
    Inspected(PdfInspectionResult),
    /// The diagnostic copies were kept under these paths.
    Kept(Vec<String>),
    /// The identification was attached, taking `duration_ms`.
    Attached { duration_ms: u64 },
}

/// What the caller does next.
pub enum ConversionAction {
    /// Run Ghostscript in the working directory with `arguments`.
    Run { pass: GhostscriptPass, arguments: Vec<String> },
    /// Inspect `file` of the working directory.
    Inspect { file: &'static str },
    /// Keep copies of these working files, each under its label.
    KeepDiagnostics { files: Vec<(&'static str, &'static str)> },
    /// Attach the PDF/X-1a identification to `source`, writing `target`.
    Attach { source: &'static str, target: &'static str },
    /// Stop with this error.
    Fail(OpenPrintPdfError),
    /// The conversion's output is `output.pdf` of the working directory.
    Done,
}

/// A conversion in progress.
pub struct ConversionRun {
    mode: ConversionMode,
    passes: Vec<GhostscriptPass>,
    phase: ConversionPhase,
    reference: PdfInspectionResult,
    rejected: Option<PdfInspectionResult>,
    duration_ms: u64,
    warnings: Vec<String>,
    executable: String,
}

/// The rendering intent of a mode's colour conversion.
pub open spec fn mode_intent(mode: ConversionMode) -> RenderingIntent {
    match mode {
        ConversionMode::PdfX1a { rendering_intent, .. } => rendering_intent,
        ConversionMode::OutlineOnly => RenderingIntent::RelativeColorimetric,
    }
}

/// Whether a mode's colour conversion compensates black points.
pub open spec fn mode_bpc(mode: ConversionMode) -> bool {
    match mode {
        ConversionMode::PdfX1a { black_point_compensation, .. } => black_point_compensation,
        ConversionMode::OutlineOnly => false,
    }
}

/// The resolution at which a mode flattens transparency.
pub open spec fn mode_dpi(mode: ConversionMode) -> u16 {
    match mode {
        ConversionMode::PdfX1a { transparency_resolution_dpi, .. } => transparency_resolution_dpi,
        ConversionMode::OutlineOnly => 0,
    }
}

/// The arguments of a run of a conversion in `mode`.
pub open spec fn run_args(mode: ConversionMode, pass: GhostscriptPass) -> Seq<Seq<char>> {
    pass_args(pass, mode_intent(mode), mode_bpc(mode), mode_dpi(mode))
}

/// `a + b`, saturating at the 64-bit maximum.
pub open spec fn saturating_sum(a: u64, b: u64) -> u64 {
    if a + b > u64::MAX { u64::MAX } else { (a + b) as u64 }
}

/// Where a conversion goes once run `k` is done (and, where checked,
/// kept its images): the next run, else attaching the identification
/// where the mode does so, else the end.
pub open spec fn phase_after(mode: ConversionMode, k: nat) -> ConversionPhase {
    if k + 1 < passes_of(mode).len() {
        ConversionPhase::Running((k + 1) as usize)
    } else if attaches_identification(mode) {
        ConversionPhase::Attaching
    } else {
        ConversionPhase::Finished
    }
}

/// Whether `a` is the action that begins phase `p`.
pub open spec fn begins(mode: ConversionMode, p: ConversionPhase, a: ConversionAction) -> bool {
    match p {
        ConversionPhase::Running(j) => a matches ConversionAction::Run { pass, arguments } && pass == passes_of(
            mode,
        )[j as int] && strings_view(arguments@) == run_args(mode, pass),
        ConversionPhase::Attaching => a matches ConversionAction::Attach { source, target } && source@
            == "outlined.pdf"@ && target@ == "output.pdf"@,
        ConversionPhase::Finished => a is Done,
        _ => false,
    }
}

/// The labels and files of the checked runs among the first `n` runs.
pub open spec fn kept_files(passes: Seq<GhostscriptPass>, n: nat) -> Seq<(Seq<char>, Seq<char>)>
    decreases n,
{
    if n == 0 || n > passes.len() {
        Seq::empty()
    } else {
        let rest = kept_files(passes, (n - 1) as nat);
        match pass_stage(passes[n - 1]) {
            Some((_, _, label)) => rest.push((label, pass_output(passes[n - 1]))),
            None => rest,
        }
    }
}

/// Labels and files, as characters.
pub open spec fn files_view(files: Seq<(&'static str, &'static str)>) -> Seq<(Seq<char>, Seq<char>)> {
    files.map_values(|f: (&'static str, &'static str)| (f.0@, f.1@))
}

fn mode_parameters(mode: &ConversionMode) -> (r: (RenderingIntent, bool, u16))
    ensures
        r == (mode_intent(*mode), mode_bpc(*mode), mode_dpi(*mode)),
{
    match mode {
        ConversionMode::PdfX1a { rendering_intent, black_point_compensation, transparency_resolution_dpi, .. } => (
            *rendering_intent,
            *black_point_compensation,
            *transparency_resolution_dpi,
        ),
        ConversionMode::OutlineOnly => (RenderingIntent::RelativeColorimetric, false, 0),
    }
}

fn attaches(mode: &ConversionMode) -> (r: bool)
    ensures
        r == attaches_identification(*mode),
{
    match mode {
        ConversionMode::PdfX1a { outline_fonts, .. } => *outline_fonts,
        ConversionMode::OutlineOnly => false,
    }
}

fn begin_run(mode: &ConversionMode, pass: GhostscriptPass) -> (r: ConversionAction)
    ensures
        r matches ConversionAction::Run { pass: p, arguments } && p == pass && strings_view(arguments@) == run_args(
            *mode,
            pass,
        ),
{
    let (intent, bpc, dpi) = mode_parameters(mode);
    ConversionAction::Run { pass, arguments: pass_arguments(pass, intent, bpc, dpi) }
}

fn after_pass(mode: &ConversionMode, passes: &Vec<GhostscriptPass>, k: usize) -> (r: (ConversionPhase, ConversionAction))
    requires
        passes@ == passes_of(*mode),
        k < passes@.len(),
    ensures
        r.0 == phase_after(*mode, k as nat),
        begins(*mode, r.0, r.1),
{
    if k + 1 < passes.len() {
        (ConversionPhase::Running(k + 1), begin_run(mode, passes[k + 1]))
    } else if attaches(mode) {
        (ConversionPhase::Attaching, ConversionAction::Attach { source: "outlined.pdf", target: "output.pdf" })
    } else {
        (ConversionPhase::Finished, ConversionAction::Done)
    }
}

fn kept_list(passes: &Vec<GhostscriptPass>, k: usize) -> (r: Vec<(&'static str, &'static str)>)
    requires
        k < passes@.len(),
    ensures
        files_view(r@) == kept_files(passes@, (k + 1) as nat),
{
    let mut r: Vec<(&'static str, &'static str)> = Vec::new();
    let mut i: usize = 0;
    assert(files_view(r@) =~= kept_files(passes@, 0));
    while i <= k
        invariant
            i <= k + 1,
            k < passes.len(),
            files_view(r@) == kept_files(passes@, i as nat),
        decreases k + 1 - i,
    {
        let pass = passes[i];
        let ghost before = files_view(r@);
        match pass.stage() {
            Some((_, _, label)) => {
                r.push((label, pass.output_file()));
                assert(files_view(r@) =~= before.push((label@, pass_output(pass))));
            },
            None => {},
        }
        i = i + 1;
    }
    r
}

impl ConversionRun {
    /// The run's state holds together: its runs are those of its mode, the
    /// phase names one of them, and the documents it compares have pixel
    /// totals that fit in 128 bits where the mode checks runs.
    #[verifier::type_invariant]
    spec fn well_formed(self) -> bool {
        &&& self.passes@ == passes_of(self.mode)
        &&& attaches_identification(self.mode) ==> pixel_sum(self.reference@.images) <= u128::MAX
        &&& match self.phase {
            ConversionPhase::Running(k) => k < self.passes@.len(),
            ConversionPhase::Inspecting(k) => k < self.passes@.len() && pass_stage(self.passes@[k as int]) is Some,
            ConversionPhase::Keeping(k) => k < self.passes@.len() && pass_stage(self.passes@[k as int]) is Some && (
            self.rejected matches Some(d) && pixel_sum(d@.images) <= u128::MAX),
            ConversionPhase::Attaching => attaches_identification(self.mode),
            ConversionPhase::Finished => true,
        }
    }

    /// The conversion's mode.
    pub closed spec fn spec_mode(&self) -> ConversionMode {
        self.mode
    }

    /// Where the conversion stands.
    pub closed spec fn spec_phase(&self) -> ConversionPhase {
        self.phase
    }

    /// The document the next checked run is compared with: the input, then
    /// the output of the last checked run.
    pub closed spec fn spec_reference(&self) -> InspectionView {
        self.reference@
    }

    /// The output of the checked run that lost image content, if one did.
    pub closed spec fn spec_rejected(&self) -> Option<InspectionView> {
        match self.rejected {
            Some(d) => Some(d@),
            None => None,
        }
    }

    /// The time the runs and the attaching took, saturating.
    pub closed spec fn spec_duration(&self) -> u64 {
        self.duration_ms
    }

    /// The warning lines of the runs, in order.
    pub closed spec fn spec_warnings(&self) -> Seq<Seq<char>> {
        strings_view(self.warnings@)
    }

    /// The Ghostscript executable, for messages.
    pub closed spec fn spec_executable(&self) -> Seq<char> {
        self.executable@
    }

    /// Whether `event` reports on the action the conversion asked for; an
    /// inspected document's pixel total must fit in 128 bits.
    pub open spec fn accepts(&self, event: ConversionEvent) -> bool {
        match (self.spec_phase(), event) {
            (ConversionPhase::Running(_), ConversionEvent::Ran { .. }) => true,
            (ConversionPhase::Inspecting(_), ConversionEvent::Inspected(d)) => pixel_sum(d@.images) <= u128::MAX,
            (ConversionPhase::Keeping(_), ConversionEvent::Kept(_)) => true,
            (ConversionPhase::Attaching, ConversionEvent::Attached { .. }) => true,
            _ => false,
        }
    }

    /// Starts a conversion of `input` in `mode` with `executable`: the
    /// first run of the mode.
    pub fn start(mode: ConversionMode, input: PdfInspectionResult, executable: String) -> (r: (ConversionRun, ConversionAction))
        requires
            attaches_identification(mode) ==> pixel_sum(input@.images) <= u128::MAX,
        ensures
            r.0.spec_mode() == mode,
            r.0.spec_phase() == ConversionPhase::Running(0),
            r.0.spec_reference() == input@,
            r.0.spec_rejected() is None,
            r.0.spec_duration() == 0,
            r.0.spec_warnings() == Seq::<Seq<char>>::empty(),
            r.0.spec_executable() == executable@,
            begins(mode, ConversionPhase::Running(0), r.1),
    {
        let passes = conversion_passes(&mode);
        let action = begin_run(&mode, passes[0]);
        let warnings: Vec<String> = Vec::new();
        assert(strings_view(warnings@) =~= Seq::<Seq<char>>::empty());
        let run = ConversionRun {
            mode,
            passes,
            phase: ConversionPhase::Running(0),
            reference: input,
            rejected: None,
            duration_ms: 0,
            warnings,
            executable,
        };
        (run, action)
    }

    /// Where the conversion stands.
    pub fn phase(&self) -> (r: ConversionPhase)
        ensures
            r == self.spec_phase(),
    {
        self.phase
    }

    /// The time the runs and the attaching took, saturating.
    pub fn duration_ms(&self) -> (r: u64)
        ensures
            r == self.spec_duration(),
    {
        self.duration_ms
    }

    /// The warning lines of the runs, in order.
    pub fn into_warnings(self) -> (r: Vec<String>)
        ensures
            strings_view(r@) == self.spec_warnings(),
    {
        self.warnings
    }

    /// Whether `event` reports on the action the conversion asked for.
    pub fn accepts_event(&self, event: &ConversionEvent) -> (r: bool)
        ensures
            r == self.accepts(*event),
    {
        match (self.phase, event) {
            (ConversionPhase::Running(_), ConversionEvent::Ran { .. }) => true,
            (ConversionPhase::Inspecting(_), ConversionEvent::Inspected(d)) => pixels_fit(d),
            (ConversionPhase::Keeping(_), ConversionEvent::Kept(_)) => true,
            (ConversionPhase::Attaching, ConversionEvent::Attached { .. }) => true,
            _ => false,
        }
    }

    /// Takes what came of the last action and decides the next. After a
    /// run, the warnings and time are added; a checked run's output is
    /// inspected next, and where it lost image content (against the input,
    /// or the last checked output) the outputs so far are kept and the
    /// conversion fails; otherwise the next run follows, then the
    /// attaching where the mode does it, then the end.
    #[verifier::spinoff_prover]
    pub fn advance(self, event: ConversionEvent) -> (r: (ConversionRun, ConversionAction))
        requires
            self.accepts(event),
        ensures
            r.0.spec_mode() == self.spec_mode(),
            r.0.spec_executable() == self.spec_executable(),
            match (self.spec_phase(), event) {
                (ConversionPhase::Running(k), ConversionEvent::Ran { duration_ms, warnings }) => {
                    &&& r.0.spec_duration() == saturating_sum(self.spec_duration(), duration_ms)
                    &&& r.0.spec_warnings() == self.spec_warnings() + strings_view(warnings@)
                    &&& r.0.spec_reference() == self.spec_reference()
                    &&& if pass_stage(passes_of(self.spec_mode())[k as int]) is Some {
                        &&& r.0.spec_phase() == ConversionPhase::Inspecting(k)
                        &&& r.1 matches ConversionAction::Inspect { file } && file@ == pass_output(
                            passes_of(self.spec_mode())[k as int],
                        )
                    } else {
                        &&& r.0.spec_phase() == phase_after(self.spec_mode(), k as nat)
                        &&& begins(self.spec_mode(), r.0.spec_phase(), r.1)
                    }
                },
                (ConversionPhase::Inspecting(k), ConversionEvent::Inspected(d)) => {
                    &&& r.0.spec_duration() == self.spec_duration()
                    &&& r.0.spec_warnings() == self.spec_warnings()
                    &&& if content_dropped(pixel_sum(self.spec_reference().images), pixel_sum(d@.images)) {
                        &&& r.0.spec_phase() == ConversionPhase::Keeping(k)
                        &&& r.0.spec_reference() == self.spec_reference()
                        &&& r.0.spec_rejected() == Some(d@)
                        &&& r.1 matches ConversionAction::KeepDiagnostics { files } && files_view(files@) == kept_files(
                            passes_of(self.spec_mode()),
                            (k + 1) as nat,
                        )
                    } else {
                        &&& r.0.spec_phase() == phase_after(self.spec_mode(), k as nat)
                        &&& r.0.spec_reference() == d@
                        &&& begins(self.spec_mode(), r.0.spec_phase(), r.1)
                    }
                },
                (ConversionPhase::Keeping(k), ConversionEvent::Kept(paths)) => {
                    let stage = pass_stage(passes_of(self.spec_mode())[k as int])->Some_0;
                    &&& r.0.spec_phase() == ConversionPhase::Finished
                    &&& r.1 matches ConversionAction::Fail(OpenPrintPdfError::ValidationFailed(m)) && m@ == image_loss_text(
                        stage.0,
                        stage.1,
                        self.spec_reference().images,
                        self.spec_rejected()->Some_0.images,
                        strings_view(paths@),
                        self.spec_executable(),
                    )
                },
                (ConversionPhase::Attaching, ConversionEvent::Attached { duration_ms }) => {
                    &&& r.0.spec_phase() == ConversionPhase::Finished
                    &&& r.0.spec_duration() == saturating_sum(self.spec_duration(), duration_ms)
                    &&& r.0.spec_warnings() == self.spec_warnings()
                    &&& r.1 is Done
                },
                _ => true,
            },
    {
        proof {
            use_type_invariant(&self);
        }
        let ConversionRun { mode, passes, phase, reference, rejected, duration_ms, warnings, executable } = self;
        match (phase, event) {
            (ConversionPhase::Running(k), ConversionEvent::Ran { duration_ms: d, warnings: w }) => {
                let total = duration_ms.saturating_add(d);
                let mut all = warnings;
                let ghost before = strings_view(all@);
                let mut i: usize = 0;
                while i < w.len()
                    invariant
                        i <= w.len(),
                        strings_view(all@) == before + strings_view(w@.take(i as int)),
                    decreases w.len() - i,
                {
                    let line = w[i].clone();
                    assert(line@ == w@[i as int]@);
                    let ghost prior = strings_view(all@);
                    all.push(line);
                    assert(strings_view(all@) =~= prior.push(line@));
                    assert(strings_view(w@.take(i + 1)) =~= strings_view(w@.take(i as int)).push(w@[i as int]@));
                    i = i + 1;
                }
                assert(w@.take(i as int) =~= w@);
                let pass = passes[k];
                match pass.stage() {
                    Some(_) => {
                        let run = ConversionRun {
                            mode,
                            passes,
                            phase: ConversionPhase::Inspecting(k),
                            reference,
                            rejected,
                            duration_ms: total,
                            warnings: all,
                            executable,
                        };
                        (run, ConversionAction::Inspect { file: pass.output_file() })
                    },
                    None => {
                        let (next, action) = after_pass(&mode, &passes, k);
                        let run = ConversionRun {
                            mode,
                            passes,
                            phase: next,
                            reference,
                            rejected,
                            duration_ms: total,
                            warnings: all,
                            executable,
                        };
                        (run, action)
                    },
                }
            },
            (ConversionPhase::Inspecting(k), ConversionEvent::Inspected(d)) => {
                if crate::ghostscript::image_content_dropped(&reference, &d) {
                    let files = kept_list(&passes, k);
                    let run = ConversionRun {
                        mode,
                        passes,
                        phase: ConversionPhase::Keeping(k),
                        reference,
                        rejected: Some(d),
                        duration_ms,
                        warnings,
                        executable,
                    };
                    (run, ConversionAction::KeepDiagnostics { files })
                } else {
                    let (next, action) = after_pass(&mode, &passes, k);
                    let run = ConversionRun {
                        mode,
                        passes,
                        phase: next,
                        reference: d,
                        rejected,
                        duration_ms,
                        warnings,
                        executable,
                    };
                    (run, action)
                }
            },
            (ConversionPhase::Keeping(k), ConversionEvent::Kept(paths)) => {
                let pass = passes[k];
                let (stage, label) = match pass.stage() {
                    Some((n, l, _)) => (n, l),
                    None => (0, ""),
                };
                let error = match &rejected {
                    Some(after) => stage_image_loss_error(stage, label, &reference, after, paths.as_slice(), executable.as_str()),
                    None => OpenPrintPdfError::ValidationFailed(String::new()),
                };
                let run = ConversionRun {
                    mode,
                    passes,
                    phase: ConversionPhase::Finished,
                    reference,
                    rejected,
                    duration_ms,
                    warnings,
                    executable,
                };
                (run, ConversionAction::Fail(error))
            },
            (ConversionPhase::Attaching, ConversionEvent::Attached { duration_ms: d }) => {
                let run = ConversionRun {
                    mode,
                    passes,
                    phase: ConversionPhase::Finished,
                    reference,
                    rejected,
                    duration_ms: duration_ms.saturating_add(d),
                    warnings,
                    executable,
                };
                (run, ConversionAction::Done)
            },
            (phase, _) => {
                let run = ConversionRun { mode, passes, phase, reference, rejected, duration_ms, warnings, executable };
                (run, ConversionAction::Done)
            },
        }
    }
}


/// Runs are checked for lost images only in the PDF/X conversion that
/// outlines fonts, whose output is identified afterwards; and that
/// conversion checks every one of its runs.
pub proof fn lemma_checked_runs_come_with_attaching(mode: ConversionMode, k: int)
    requires
        0 <= k < passes_of(mode).len(),
    ensures
        pass_stage(passes_of(mode)[k]) is Some <==> attaches_identification(mode),
{
}

/// Each run leads to the next, in the order of the mode's runs; the last
/// leads to attaching the identification where the mode does so, else to
/// the end.
pub proof fn lemma_runs_follow_in_order(mode: ConversionMode, k: nat)
    requires
        k < passes_of(mode).len(),
    ensures
        k + 1 < passes_of(mode).len() ==> phase_after(mode, k) == ConversionPhase::Running((k + 1) as usize),
        k + 1 == passes_of(mode).len() && attaches_identification(mode) ==> phase_after(mode, k)
            == ConversionPhase::Attaching,
        k + 1 == passes_of(mode).len() && !attaches_identification(mode) ==> phase_after(mode, k)
            == ConversionPhase::Finished,
{
}

} // verus!

//! The catalogue: what the program offers, with which models, and which
//! parameters each model takes.

use vstd::prelude::*;

use crate::paths::join;
use crate::text::{copied_text, joined, same};
use vstd::string::StringExecFns;

verus! {

/// A decimal number: `mantissa` over ten to the power of `places`.
#[derive(Clone, Copy, PartialEq, Eq, Debug, Structural)]
pub struct Decimal {
    pub mantissa: i64,
    pub places: u32,
}

/// A decimal number from its parts.
pub open spec fn decimal(mantissa: i64, places: u32) -> Decimal {
    Decimal { mantissa, places }
}

fn new_decimal(mantissa: i64, places: u32) -> (r: Decimal)
    ensures
        r == decimal(mantissa, places),
{
    Decimal { mantissa, places }
}

/// The value of a parameter that is used when a job does not give one.
pub enum ParamValue {
    Int(i64),
    Number(Decimal),
    Text(String),
}

/// A default value, as mathematical values.
pub enum ParamValueView {
    Int(i64),
    Number(Decimal),
    Text(Seq<char>),
}

impl View for ParamValue {
    type V = ParamValueView;

    open spec fn view(&self) -> ParamValueView {
        match self {
            ParamValue::Int(n) => ParamValueView::Int(*n),
            ParamValue::Number(d) => ParamValueView::Number(*d),
            ParamValue::Text(s) => ParamValueView::Text(s@),
        }
    }
}

/// One adjustable parameter, as the front end shows it.
pub struct ParamDef {
    pub key: String,
    pub label: String,
    /// `int`, `float` or `select`.
    pub kind: String,
    pub default: ParamValue,
    pub min: Option<Decimal>,
    pub max: Option<Decimal>,
    pub step: Option<Decimal>,
    pub unit: Option<String>,
    pub options: Option<Vec<String>>,
}

/// A parameter, as mathematical values.
pub struct ParamDefView {
    pub key: Seq<char>,
    pub label: Seq<char>,
    pub kind: Seq<char>,
    pub default: ParamValueView,
    pub min: Option<Decimal>,
    pub max: Option<Decimal>,
    pub step: Option<Decimal>,
    pub unit: Option<Seq<char>>,
    pub options: Option<Seq<Seq<char>>>,
}

impl View for ParamDef {
    type V = ParamDefView;

    open spec fn view(&self) -> ParamDefView {
        ParamDefView {
            key: self.key@,
            label: self.label@,
            kind: self.kind@,
            default: self.default@,
            min: self.min,
            max: self.max,
            step: self.step,
            unit: match self.unit {
                Some(u) => Some(u@),
                None => None,
            },
            options: match self.options {
                Some(o) => Some(crate::text::texts_view(o@)),
                None => None,
            },
        }
    }
}

/// One model of an app, with its parameters. Its files are in a directory of
/// its own below the checkpoint directory.
pub struct ModelDef {
    pub id: String,
    pub label: String,
    pub dir: String,
    /// The weights file in that directory.
    pub checkpoint: String,
    pub variant: String,
    pub params: Vec<ParamDef>,
}

/// A model, as mathematical values.
pub struct ModelDefView {
    pub id: Seq<char>,
    pub label: Seq<char>,
    pub dir: Seq<char>,
    pub checkpoint: Seq<char>,
    pub variant: Seq<char>,
    pub params: Seq<ParamDefView>,
}

impl View for ModelDef {
    type V = ModelDefView;

    open spec fn view(&self) -> ModelDefView {
        ModelDefView {
            id: self.id@,
            label: self.label@,
            dir: self.dir@,
            checkpoint: self.checkpoint@,
            variant: self.variant@,
            params: self.params@.map_values(|p: ParamDef| p@),
        }
    }
}

/// One app, with its models.
pub struct AppDef {
    pub id: String,
    pub label: String,
    pub icon: String,
    pub description: String,
    pub models: Vec<ModelDef>,
}

/// An app, as mathematical values.
pub struct AppDefView {
    pub id: Seq<char>,
    pub label: Seq<char>,
    pub icon: Seq<char>,
    pub description: Seq<char>,
    pub models: Seq<ModelDefView>,
}

impl View for AppDef {
    type V = AppDefView;

    open spec fn view(&self) -> AppDefView {
        AppDefView {
            id: self.id@,
            label: self.label@,
            icon: self.icon@,
            description: self.description@,
            models: self.models@.map_values(|m: ModelDef| m@),
        }
    }
}

/// A parameter that is a whole number.
pub open spec fn int_def(
    key: Seq<char>,
    label: Seq<char>,
    default: i64,
    min: i64,
    max: i64,
    unit: Seq<char>,
) -> ParamDefView {
    ParamDefView {
        key,
        label,
        kind: "int"@,
        default: ParamValueView::Int(default),
        min: Some(decimal(min, 0)),
        max: Some(decimal(max, 0)),
        step: Some(decimal(1, 0)),
        unit: Some(unit),
        options: None,
    }
}

/// A parameter that is a decimal number.
pub open spec fn float_def(
    key: Seq<char>,
    label: Seq<char>,
    default: Decimal,
    min: Decimal,
    max: Decimal,
    step: Decimal,
) -> ParamDefView {
    ParamDefView {
        key,
        label,
        kind: "float"@,
        default: ParamValueView::Number(default),
        min: Some(min),
        max: Some(max),
        step: Some(step),
        unit: None,
        options: None,
    }
}

/// A parameter that is one of several texts.
pub open spec fn select_def(
    key: Seq<char>,
    label: Seq<char>,
    default: Seq<char>,
    options: Seq<Seq<char>>,
) -> ParamDefView {
    ParamDefView {
        key,
        label,
        kind: "select"@,
        default: ParamValueView::Text(default),
        min: None,
        max: None,
        step: None,
        unit: None,
        options: Some(options),
    }
}

fn owned_texts(list: Vec<&'static str>) -> (r: Vec<String>)
    ensures
        crate::text::texts_view(r@) == list@.map_values(|s: &'static str| s@),
{
    let mut r: Vec<String> = Vec::new();
    let mut i: usize = 0;
    while i < list.len()
        invariant
            i <= list.len(),
            r@.len() == i,
            forall|j: int| 0 <= j < i ==> (#[trigger] r@[j])@ == list@[j]@,
        decreases list.len() - i,
    {
        r.push(list[i].to_owned());
        i = i + 1;
    }
    proof {
        assert(crate::text::texts_view(r@) =~= list@.map_values(|s: &'static str| s@));
    }
    r
}

impl ParamDef {
    /// A parameter that is a whole number from `min` to `max`.
    pub fn integer(key: &str, label: &str, default: i64, min: i64, max: i64, unit: &str) -> (r: Self)
        ensures
            r@ == int_def(key@, label@, default, min, max, unit@),
    {
        ParamDef {
            key: key.to_owned(),
            label: label.to_owned(),
            kind: "int".to_owned(),
            default: ParamValue::Int(default),
            min: Some(new_decimal(min, 0)),
            max: Some(new_decimal(max, 0)),
            step: Some(new_decimal(1, 0)),
            unit: Some(unit.to_owned()),
            options: None,
        }
    }

    /// A parameter that is a decimal number from `min` to `max`.
    pub fn float(
        key: &str,
        label: &str,
        default: Decimal,
        min: Decimal,
        max: Decimal,
        step: Decimal,
    ) -> (r: Self)
        ensures
            r@ == float_def(key@, label@, default, min, max, step),
    {
        ParamDef {
            key: key.to_owned(),
            label: label.to_owned(),
            kind: "float".to_owned(),
            default: ParamValue::Number(default),
            min: Some(min),
            max: Some(max),
            step: Some(step),
            unit: None,
            options: None,
        }
    }

    /// A parameter that is one of `options`.
    pub fn select(
        key: &str,
        label: &str,
        default: &str,
        options: Vec<&'static str>,
    ) -> (r: Self)
        ensures
            r@ == select_def(
                key@,
                label@,
                default@,
                options@.map_values(|s: &'static str| s@),
            ),
    {
        ParamDef {
            key: key.to_owned(),
            label: label.to_owned(),
            kind: "select".to_owned(),
            default: ParamValue::Text(default.to_owned()),
            min: None,
            max: None,
            step: None,
            unit: None,
            options: Some(owned_texts(options)),
        }
    }
}

/// The model `renaissance`.
pub open spec fn renaissance_model() -> ModelDefView {
    ModelDefView {
        id: "renaissance"@,
        label: "renaissance"@,
        dir: "renaissance"@,
        checkpoint: "smule-renaissance-small.safetensors"@,
        variant: "default"@,
        params: seq![
            select_def("device"@, "Device"@, "gpu"@, seq!["gpu"@, "cpu"@]),
            select_def("mode"@, "Mode"@, "batch"@, seq!["batch"@, "streaming"@]),
            int_def("chunk_frames"@, "Chunk frames"@, 8, 1, 64, "frames"@),
            int_def("left_context"@, "Left context"@, 129, 1, 256, "frames"@),
            int_def("right_context"@, "Right context"@, 129, 0, 256, "frames"@),
        ],
    }
}

fn new_renaissance_model() -> (r: ModelDef)
    ensures
        r@ == renaissance_model(),
{
    let device_options: Vec<&'static str> = vec!["gpu", "cpu"];
    let mode_options: Vec<&'static str> = vec!["batch", "streaming"];
    proof {
        assert(device_options@.map_values(|s: &'static str| s@) =~= seq!["gpu"@, "cpu"@]);
        assert(mode_options@.map_values(|s: &'static str| s@) =~= seq!["batch"@, "streaming"@]);
    }
    let params: Vec<ParamDef> = vec![
        ParamDef::select("device", "Device", "gpu", device_options),
        ParamDef::select("mode", "Mode", "batch", mode_options),
        ParamDef::integer("chunk_frames", "Chunk frames", 8, 1, 64, "frames"),
        ParamDef::integer("left_context", "Left context", 129, 1, 256, "frames"),
        ParamDef::integer("right_context", "Right context", 129, 0, 256, "frames"),
    ];
    let r = ModelDef {
        id: "renaissance".to_owned(),
        label: "renaissance".to_owned(),
        dir: "renaissance".to_owned(),
        checkpoint: "smule-renaissance-small.safetensors".to_owned(),
        variant: "default".to_owned(),
        params,
    };
    assert(r@.params =~= renaissance_model().params);
    r
}

/// The app `vocal-enhance`.
pub open spec fn vocal_enhance_app() -> AppDefView {
    AppDefView {
        id: "vocal-enhance"@,
        label: "Vocal enhance"@,
        icon: "sparkle"@,
        description: "Restore and enhance a vocal recording with the Smule Renaissance model. 48 kHz mono output."@,
        models: seq![renaissance_model()],
    }
}

fn new_vocal_enhance_app() -> (r: AppDef)
    ensures
        r@ == vocal_enhance_app(),
{
    let r = AppDef {
        id: "vocal-enhance".to_owned(),
        label: "Vocal enhance".to_owned(),
        icon: "sparkle".to_owned(),
        description: "Restore and enhance a vocal recording with the Smule Renaissance model. 48 kHz mono output.".to_owned(),
        models: vec![new_renaissance_model()],
    };
    assert(r@.models =~= vocal_enhance_app().models);
    r
}

/// The model `GAME-1.0-large`.
pub open spec fn game_model() -> ModelDefView {
    ModelDefView {
        id: "GAME-1.0-large"@,
        label: "GAME-1.0-large"@,
        dir: "GAME-1.0-large"@,
        checkpoint: "GAME-1.0-large.safetensors"@,
        variant: "default"@,
        params: seq![
            float_def("t0"@, "D3PM start (t0)"@, decimal(0, 1), decimal(0, 1), decimal(10, 1), decimal(5, 2)),
            int_def("nsteps"@, "Denoising steps"@, 8, 1, 64, "steps"@),
            float_def("seg_threshold"@, "Boundary threshold"@, decimal(2, 1), decimal(0, 1), decimal(10, 1), decimal(5, 2)),
            float_def("seg_radius"@, "Boundary radius"@, decimal(2, 2), decimal(0, 1), decimal(5, 1), decimal(1, 2)),
            float_def("est_threshold"@, "Presence threshold"@, decimal(2, 1), decimal(0, 1), decimal(10, 1), decimal(5, 2)),
            float_def("tempo"@, "MIDI tempo"@, decimal(1200, 1), decimal(200, 1), decimal(3000, 1), decimal(10, 1)),
            select_def("language"@, "Language"@, "none"@, seq!["none"@, "en"@, "ja"@, "yue"@, "zh"@]),
        ],
    }
}

fn new_game_model() -> (r: ModelDef)
    ensures
        r@ == game_model(),
{
    let language_options: Vec<&'static str> = vec!["none", "en", "ja", "yue", "zh"];
    proof {
        assert(language_options@.map_values(|s: &'static str| s@) =~= seq!["none"@, "en"@, "ja"@, "yue"@, "zh"@]);
    }
    let params: Vec<ParamDef> = vec![
        ParamDef::float("t0", "D3PM start (t0)", new_decimal(0, 1), new_decimal(0, 1), new_decimal(10, 1), new_decimal(5, 2)),
        ParamDef::integer("nsteps", "Denoising steps", 8, 1, 64, "steps"),
        ParamDef::float("seg_threshold", "Boundary threshold", new_decimal(2, 1), new_decimal(0, 1), new_decimal(10, 1), new_decimal(5, 2)),
        ParamDef::float("seg_radius", "Boundary radius", new_decimal(2, 2), new_decimal(0, 1), new_decimal(5, 1), new_decimal(1, 2)),
        ParamDef::float("est_threshold", "Presence threshold", new_decimal(2, 1), new_decimal(0, 1), new_decimal(10, 1), new_decimal(5, 2)),
        ParamDef::float("tempo", "MIDI tempo", new_decimal(1200, 1), new_decimal(200, 1), new_decimal(3000, 1), new_decimal(10, 1)),
        ParamDef::select("language", "Language", "none", language_options),
    ];
    let r = ModelDef {
        id: "GAME-1.0-large".to_owned(),
        label: "GAME-1.0-large".to_owned(),
        dir: "GAME-1.0-large".to_owned(),
        checkpoint: "GAME-1.0-large.safetensors".to_owned(),
        variant: "default".to_owned(),
        params,
    };
    assert(r@.params =~= game_model().params);
    r
}

/// The app `vocal2midi`.
pub open spec fn vocal2midi_app() -> AppDefView {
    AppDefView {
        id: "vocal2midi"@,
        label: "Vocal to MIDI"@,
        icon: "piano-keys"@,
        description: "Transcribe singing voice into continuous-pitch note events with GAME. Exports MIDI and JSON."@,
        models: seq![game_model()],
    }
}

fn new_vocal2midi_app() -> (r: AppDef)
    ensures
        r@ == vocal2midi_app(),
{
    let r = AppDef {
        id: "vocal2midi".to_owned(),
        label: "Vocal to MIDI".to_owned(),
        icon: "piano-keys".to_owned(),
        description: "Transcribe singing voice into continuous-pitch note events with GAME. Exports MIDI and JSON.".to_owned(),
        models: vec![new_game_model()],
    };
    assert(r@.models =~= vocal2midi_app().models);
    r
}

/// The model `melband-roformer`.
pub open spec fn melband_roformer_model() -> ModelDefView {
    ModelDefView {
        id: "melband-roformer"@,
        label: "melband-roformer"@,
        dir: "melband-roformer"@,
        checkpoint: "melband-roformer.mlx.safetensors"@,
        variant: "full"@,
        params: seq![
            int_def("chunk_size"@, "Chunk size"@, 8, 1, 30, "sec"@),
            int_def("overlap"@, "Overlap"@, 2, 1, 8, "windows"@),
        ],
    }
}

fn new_melband_roformer_model() -> (r: ModelDef)
    ensures
        r@ == melband_roformer_model(),
{
    let params: Vec<ParamDef> = vec![
        ParamDef::integer("chunk_size", "Chunk size", 8, 1, 30, "sec"),
        ParamDef::integer("overlap", "Overlap", 2, 1, 8, "windows"),
    ];
    let r = ModelDef {
        id: "melband-roformer".to_owned(),
        label: "melband-roformer".to_owned(),
        dir: "melband-roformer".to_owned(),
        checkpoint: "melband-roformer.mlx.safetensors".to_owned(),
        variant: "full".to_owned(),
        params,
    };
    assert(r@.params =~= melband_roformer_model().params);
    r
}

/// The model `mbr-win10-sink8`.
pub open spec fn mbr_win10_sink8_model() -> ModelDefView {
    ModelDefView {
        id: "mbr-win10-sink8"@,
        label: "mbr-win10-sink8"@,
        dir: "mbr-win10-sink8"@,
        checkpoint: "mbr-win10-sink8.mlx.safetensors"@,
        variant: "wsa"@,
        params: seq![
            int_def("chunk_size"@, "Chunk size"@, 8, 1, 30, "sec"@),
            int_def("batch_size"@, "Batch size"@, 4, 1, 16, "chunks"@),
        ],
    }
}

fn new_mbr_win10_sink8_model() -> (r: ModelDef)
    ensures
        r@ == mbr_win10_sink8_model(),
{
    let params: Vec<ParamDef> = vec![
        ParamDef::integer("chunk_size", "Chunk size", 8, 1, 30, "sec"),
        ParamDef::integer("batch_size", "Batch size", 4, 1, 16, "chunks"),
    ];
    let r = ModelDef {
        id: "mbr-win10-sink8".to_owned(),
        label: "mbr-win10-sink8".to_owned(),
        dir: "mbr-win10-sink8".to_owned(),
        checkpoint: "mbr-win10-sink8.mlx.safetensors".to_owned(),
        variant: "wsa".to_owned(),
        params,
    };
    assert(r@.params =~= mbr_win10_sink8_model().params);
    r
}

/// The app `source-separation`.
pub open spec fn source_separation_app() -> AppDefView {
    AppDefView {
        id: "source-separation"@,
        label: "Source separation"@,
        icon: "arrows-split"@,
        description: "Split a stereo mix into vocal and instrumental stems with Mel-Band Roformer. 44.1 kHz stereo WAV."@,
        models: seq![melband_roformer_model(), mbr_win10_sink8_model()],
    }
}

fn new_source_separation_app() -> (r: AppDef)
    ensures
        r@ == source_separation_app(),
{
    let r = AppDef {
        id: "source-separation".to_owned(),
        label: "Source separation".to_owned(),
        icon: "arrows-split".to_owned(),
        description: "Split a stereo mix into vocal and instrumental stems with Mel-Band Roformer. 44.1 kHz stereo WAV.".to_owned(),
        models: vec![new_melband_roformer_model(), new_mbr_win10_sink8_model()],
    };
    assert(r@.models =~= source_separation_app().models);
    r
}
/// All apps.
pub open spec fn catalogue() -> Seq<AppDefView> {
    seq![vocal_enhance_app(), vocal2midi_app(), source_separation_app()]
}

/// A list of apps, as mathematical values.
pub open spec fn apps_view(apps: Seq<AppDef>) -> Seq<AppDefView> {
    apps.map_values(|a: AppDef| a@)
}

/// All apps.
pub fn all_apps() -> (r: Vec<AppDef>)
    ensures
        apps_view(r@) == catalogue(),
{
    let r: Vec<AppDef> = vec![
        new_vocal_enhance_app(),
        new_vocal2midi_app(),
        new_source_separation_app(),
    ];
    assert(apps_view(r@) =~= catalogue());
    r
}

impl Clone for ParamValue {
    fn clone(&self) -> (r: Self)
        ensures
            r@ == self@,
    {
        match self {
            ParamValue::Int(n) => ParamValue::Int(*n),
            ParamValue::Number(d) => ParamValue::Number(*d),
            ParamValue::Text(s) => ParamValue::Text(s.clone()),
        }
    }
}

impl Clone for ParamDef {
    fn clone(&self) -> (r: Self)
        ensures
            r@ == self@,
    {
        let options: Option<Vec<String>> = match &self.options {
            Some(list) => {
                let mut copy: Vec<String> = Vec::new();
                let mut i: usize = 0;
                while i < list.len()
                    invariant
                        i <= list.len(),
                        copy@ == list@.take(i as int),
                    decreases list.len() - i,
                {
                    copy.push(list[i].clone());
                    proof {
                        assert(list@.take(i + 1) =~= list@.take(i as int).push(list@[i as int]));
                    }
                    i = i + 1;
                }
                proof {
                    assert(list@.take(i as int) =~= list@);
                }
                Some(copy)
            },
            None => None,
        };
        ParamDef {
            key: self.key.clone(),
            label: self.label.clone(),
            kind: self.kind.clone(),
            default: self.default.clone(),
            min: self.min,
            max: self.max,
            step: self.step,
            unit: copied_text(&self.unit),
            options,
        }
    }
}

impl Clone for ModelDef {
    fn clone(&self) -> (r: Self)
        ensures
            r@ == self@,
    {
        let mut params: Vec<ParamDef> = Vec::new();
        let mut i: usize = 0;
        while i < self.params.len()
            invariant
                i <= self.params.len(),
                params@.len() == i,
                forall|j: int| 0 <= j < i ==> (#[trigger] params@[j])@ == self.params@[j]@,
            decreases self.params.len() - i,
        {
            params.push(self.params[i].clone());
            i = i + 1;
        }
        let r = ModelDef {
            id: self.id.clone(),
            label: self.label.clone(),
            dir: self.dir.clone(),
            checkpoint: self.checkpoint.clone(),
            variant: self.variant.clone(),
            params,
        };
        proof {
            assert(r@.params =~= self@.params);
        }
        r
    }
}

impl Clone for AppDef {
    fn clone(&self) -> (r: Self)
        ensures
            r@ == self@,
    {
        let mut models: Vec<ModelDef> = Vec::new();
        let mut i: usize = 0;
        while i < self.models.len()
            invariant
                i <= self.models.len(),
                models@.len() == i,
                forall|j: int| 0 <= j < i ==> (#[trigger] models@[j])@ == self.models@[j]@,
            decreases self.models.len() - i,
        {
            models.push(self.models[i].clone());
            i = i + 1;
        }
        let r = AppDef {
            id: self.id.clone(),
            label: self.label.clone(),
            icon: self.icon.clone(),
            description: self.description.clone(),
            models,
        };
        proof {
            assert(r@.models =~= self@.models);
        }
        r
    }
}

/// The first app with an id.
pub open spec fn app_with_id(apps: Seq<AppDefView>, id: Seq<char>) -> Option<AppDefView>
    decreases apps.len(),
{
    if apps.len() == 0 {
        None
    } else if apps[0].id == id {
        Some(apps[0])
    } else {
        app_with_id(apps.drop_first(), id)
    }
}

/// The first model with an id.
pub open spec fn model_with_id(models: Seq<ModelDefView>, id: Seq<char>) -> Option<ModelDefView>
    decreases models.len(),
{
    if models.len() == 0 {
        None
    } else if models[0].id == id {
        Some(models[0])
    } else {
        model_with_id(models.drop_first(), id)
    }
}

/// The app with the id `id`, where the catalogue has one.
pub fn find_app(id: &str) -> (r: Option<AppDef>)
    ensures
        match r {
            Some(app) => app_with_id(catalogue(), id@) == Some(app@),
            None => app_with_id(catalogue(), id@) is None,
        },
{
    let mut apps: Vec<AppDef> = all_apps();
    let mut i: usize = 0;
    proof {
        assert(catalogue().skip(0) =~= catalogue());
    }
    while i < apps.len()
        invariant
            i <= apps.len(),
            apps_view(apps@) == catalogue(),
            app_with_id(catalogue(), id@) == app_with_id(catalogue().skip(i as int), id@),
        decreases apps.len() - i,
    {
        proof {
            assert(apps_view(apps@)[i as int] == apps@[i as int]@);
            assert(catalogue().skip(i as int)[0] == catalogue()[i as int]);
            assert(catalogue().skip(i as int).drop_first() =~= catalogue().skip(i + 1));
        }
        if same(apps[i].id.as_str(), id) {
            return Some(apps.remove(i));
        }
        i = i + 1;
    }
    None
}

impl AppDef {
    /// The model of this app with the id `model_id`, where it has one.
    pub fn find_model(&self, model_id: &str) -> (r: Option<ModelDef>)
        ensures
            match r {
                Some(model) => model_with_id(self@.models, model_id@) == Some(model@),
                None => model_with_id(self@.models, model_id@) is None,
            },
    {
        let mut i: usize = 0;
        let ghost models = self@.models;
        proof {
            assert(models.skip(0) =~= models);
        }
        while i < self.models.len()
            invariant
                i <= self.models.len(),
                models == self@.models,
                model_with_id(models, model_id@) == model_with_id(
                    models.skip(i as int),
                    model_id@,
                ),
            decreases self.models.len() - i,
        {
            proof {
                assert(models[i as int] == self.models@[i as int]@);
                assert(models.skip(i as int)[0] == models[i as int]);
                assert(models.skip(i as int).drop_first() =~= models.skip(i + 1));
            }
            if same(self.models[i].id.as_str(), model_id) {
                return Some(self.models[i].clone());
            }
            i = i + 1;
        }
        None
    }
}

// ---------- availability ----------

/// Whether a model can be used, and if not, why.
pub struct Availability {
    pub available: bool,
    /// Empty where the model can be used.
    pub reason: String,
}

/// Whether an app needs a configuration file beside its weights.
pub open spec fn needs_config(app_id: Seq<char>) -> bool {
    app_id == "vocal2midi"@
}

/// Why a model cannot be used; empty where it can.
pub open spec fn unavailable_reason(
    app_id: Seq<char>,
    model: ModelDefView,
    checkpoint_exists: bool,
    config_exists: bool,
) -> Seq<char> {
    if !checkpoint_exists {
        "missing checkpoint "@ + model.dir + "/"@ + model.checkpoint
    } else if needs_config(app_id) && !config_exists {
        "missing "@ + model.dir + "/config.yaml"@
    } else {
        ""@
    }
}

/// The files that decide whether a model can be used: its weights and its
/// configuration.
pub fn model_files(checkpoints_root: &str, model: &ModelDef) -> (r: (String, String))
    ensures
        r.0@ == crate::paths::path_join(
            crate::paths::path_join(checkpoints_root@, model@.dir),
            model@.checkpoint,
        ),
        r.1@ == crate::paths::path_join(
            crate::paths::path_join(checkpoints_root@, model@.dir),
            "config.yaml"@,
        ),
{
    let dir: String = join(checkpoints_root, model.dir.as_str());
    (join(dir.as_str(), model.checkpoint.as_str()), join(dir.as_str(), "config.yaml"))
}

/// Whether a model can be used, given which of its files are there.
pub fn model_availability(
    app_id: &str,
    model: &ModelDef,
    checkpoint_exists: bool,
    config_exists: bool,
) -> (r: Availability)
    ensures
        r.available <==> checkpoint_exists && (needs_config(app_id@) ==> config_exists),
        r.reason@ == unavailable_reason(app_id@, model@, checkpoint_exists, config_exists),
        r.available <==> r.reason@.len() == 0,
{
    let config_ok: bool = !same(app_id, "vocal2midi") || config_exists;
    let available: bool = checkpoint_exists && config_ok;
    proof {
        reveal_strlit("missing checkpoint ");
        reveal_strlit("missing ");
        reveal_strlit("");
    }
    let reason: String = if !checkpoint_exists {
        let mut text: String = joined("missing checkpoint ", model.dir.as_str());
        text.append("/");
        text.append(model.checkpoint.as_str());
        text
    } else if !config_ok {
        let mut text: String = joined("missing ", model.dir.as_str());
        text.append("/config.yaml");
        text
    } else {
        "".to_owned()
    };
    Availability { available, reason }
}

// ---------- laws ----------

/// No two apps share an id.
pub proof fn law_app_ids_are_unique(i: int, j: int)
    requires
        0 <= i < catalogue().len(),
        0 <= j < catalogue().len(),
        catalogue()[i].id == catalogue()[j].id,
    ensures
        i == j,
{
    lemma_app_ids_differ();
}

/// The ids of the apps differ, by their lengths.
pub proof fn lemma_app_ids_differ()
    ensures
        "vocal-enhance"@.len() == 13,
        "vocal2midi"@.len() == 10,
        "source-separation"@.len() == 17,
{
    reveal_strlit("vocal-enhance");
    reveal_strlit("vocal2midi");
    reveal_strlit("source-separation");
}

/// The ids and the weights files of the models differ, by their lengths.
proof fn lemma_model_names_differ()
    ensures
        "renaissance"@.len() == 11,
        "GAME-1.0-large"@.len() == 14,
        "melband-roformer"@.len() == 16,
        "mbr-win10-sink8"@.len() == 15,
        "smule-renaissance-small.safetensors"@.len() == 35,
        "GAME-1.0-large.safetensors"@.len() == 26,
        "melband-roformer.mlx.safetensors"@.len() == 32,
        "mbr-win10-sink8.mlx.safetensors"@.len() == 31,
{
    reveal_strlit("renaissance");
    reveal_strlit("GAME-1.0-large");
    reveal_strlit("melband-roformer");
    reveal_strlit("mbr-win10-sink8");
    reveal_strlit("smule-renaissance-small.safetensors");
    reveal_strlit("GAME-1.0-large.safetensors");
    reveal_strlit("melband-roformer.mlx.safetensors");
    reveal_strlit("mbr-win10-sink8.mlx.safetensors");
}

/// No two models, of one app or of different apps, share an id, and no two
/// share a weights file.
pub proof fn law_models_are_unique(i: int, k: int, j: int, l: int)
    requires
        0 <= i < catalogue().len(),
        0 <= k < catalogue()[i].models.len(),
        0 <= j < catalogue().len(),
        0 <= l < catalogue()[j].models.len(),
        catalogue()[i].models[k].id == catalogue()[j].models[l].id
            || catalogue()[i].models[k].checkpoint == catalogue()[j].models[l].checkpoint,
    ensures
        i == j,
        k == l,
{
    lemma_model_names_differ();
}

/// Every app and every model is found by its id.
pub proof fn law_catalogue_entries_are_found(i: int, k: int)
    requires
        0 <= i < catalogue().len(),
        0 <= k < catalogue()[i].models.len(),
    ensures
        app_with_id(catalogue(), catalogue()[i].id) == Some(catalogue()[i]),
        model_with_id(catalogue()[i].models, catalogue()[i].models[k].id) == Some(
            catalogue()[i].models[k],
        ),
{
    lemma_app_ids_differ();
    lemma_model_names_differ();
    reveal_with_fuel(app_with_id, 4);
    reveal_with_fuel(model_with_id, 3);
    let rest = catalogue().drop_first();
    assert(rest[0] == vocal2midi_app());
    assert(rest.drop_first()[0] == source_separation_app());
    let models = source_separation_app().models;
    assert(models.drop_first()[0] == mbr_win10_sink8_model());
    assert(i == 0 || i == 1 || i == 2);
}

/// What is found by an id is in the catalogue under that id.
pub proof fn law_found_apps_are_in_the_catalogue(id: Seq<char>)
    ensures
        app_with_id(catalogue(), id) matches Some(app) ==> app.id == id && catalogue().contains(
            app,
        ),
        app_with_id(catalogue(), id) is None ==> forall|i: int|
            0 <= i < catalogue().len() ==> (#[trigger] catalogue()[i]).id != id,
{
    lemma_app_with_id(catalogue(), id);
}

proof fn lemma_app_with_id(apps: Seq<AppDefView>, id: Seq<char>)
    ensures
        app_with_id(apps, id) matches Some(app) ==> app.id == id && apps.contains(app),
        app_with_id(apps, id) is None ==> forall|i: int|
            0 <= i < apps.len() ==> (#[trigger] apps[i]).id != id,
    decreases apps.len(),
{
    if apps.len() > 0 && apps[0].id != id {
        let rest = apps.drop_first();
        lemma_app_with_id(rest, id);
        if app_with_id(rest, id) is Some {
            let app = app_with_id(rest, id)->Some_0;
            let i = choose|i: int| 0 <= i < rest.len() && rest[i] == app;
            assert(apps[i + 1] == app);
        } else {
            assert forall|i: int| 0 <= i < apps.len() implies (#[trigger] apps[i]).id != id by {
                if i > 0 {
                    assert(rest[i - 1] == apps[i]);
                }
            }
        }
    }
}

/// A model that is found by an id is in the list under that id.
pub proof fn lemma_model_with_id(models: Seq<ModelDefView>, id: Seq<char>)
    ensures
        model_with_id(models, id) matches Some(model) ==> model.id == id && models.contains(model),
        model_with_id(models, id) is None ==> forall|i: int|
            0 <= i < models.len() ==> (#[trigger] models[i]).id != id,
    decreases models.len(),
{
    if models.len() > 0 && models[0].id != id {
        let rest = models.drop_first();
        lemma_model_with_id(rest, id);
        if model_with_id(rest, id) is Some {
            let model = model_with_id(rest, id)->Some_0;
            let i = choose|i: int| 0 <= i < rest.len() && rest[i] == model;
            assert(models[i + 1] == model);
        } else {
            assert forall|i: int| 0 <= i < models.len() implies (#[trigger] models[i]).id != id by {
                if i > 0 {
                    assert(rest[i - 1] == models[i]);
                }
            }
        }
    }
}

/// Ten to the power of `n`.
pub open spec fn power_of_ten(n: nat) -> int
    decreases n,
{
    if n == 0 {
        1
    } else {
        10 * power_of_ten((n - 1) as nat)
    }
}

/// Whether one decimal number is at most another.
pub open spec fn at_most(a: Decimal, b: Decimal) -> bool {
    a.mantissa * power_of_ten(b.places as nat) <= b.mantissa * power_of_ten(a.places as nat)
}

/// Whether a parameter's default is a value that the parameter allows.
pub open spec fn default_is_allowed(param: ParamDefView) -> bool {
    match param.default {
        ParamValueView::Int(n) => {
            &&& param.min is Some && at_most(param.min->Some_0, decimal(n, 0))
            &&& param.max is Some && at_most(decimal(n, 0), param.max->Some_0)
        },
        ParamValueView::Number(d) => {
            &&& param.min is Some && at_most(param.min->Some_0, d)
            &&& param.max is Some && at_most(d, param.max->Some_0)
        },
        ParamValueView::Text(s) => param.options is Some && param.options->Some_0.contains(s),
    }
}

/// Every parameter's default is a value that the parameter allows: within its
/// bounds, or among its options.
pub proof fn law_defaults_are_allowed(i: int, k: int, p: int)
    requires
        0 <= i < catalogue().len(),
        0 <= k < catalogue()[i].models.len(),
        0 <= p < catalogue()[i].models[k].params.len(),
    ensures
        default_is_allowed(catalogue()[i].models[k].params[p]),
{
    assert(power_of_ten(0) == 1);
    assert(power_of_ten(1) == 10);
    assert(power_of_ten(2) == 100);
    let options = seq!["gpu"@, "cpu"@];
    assert(options[0] == "gpu"@);
    let options = seq!["batch"@, "streaming"@];
    assert(options[0] == "batch"@);
    let options = seq!["none"@, "en"@, "ja"@, "yue"@, "zh"@];
    assert(options[0] == "none"@);
    let params = game_model().params;
    assert(default_is_allowed(params[0]));
    assert(default_is_allowed(params[2]));
    assert(default_is_allowed(params[3]));
    assert(default_is_allowed(params[4]));
    assert(default_is_allowed(params[5]));
}

/// Of several apps with an id the first is found, and likewise of models;
/// where none has the id, none is found.
pub proof fn law_the_first_match_is_found(
    apps: Seq<AppDefView>,
    models: Seq<ModelDefView>,
    id: Seq<char>,
    i: int,
    k: int,
)
    ensures
        0 <= i < apps.len() && apps[i].id == id && (forall|j: int|
            0 <= j < i ==> (#[trigger] apps[j]).id != id) ==> app_with_id(apps, id) == Some(
            apps[i],
        ),
        0 <= k < models.len() && models[k].id == id && (forall|j: int|
            0 <= j < k ==> (#[trigger] models[j]).id != id) ==> model_with_id(models, id) == Some(
            models[k],
        ),
        (forall|j: int| 0 <= j < apps.len() ==> (#[trigger] apps[j]).id != id) ==> app_with_id(
            apps,
            id,
        ) is None,
        (forall|j: int| 0 <= j < models.len() ==> (#[trigger] models[j]).id != id)
            ==> model_with_id(models, id) is None,
{
    lemma_app_with_id(apps, id);
    lemma_model_with_id(models, id);
    if 0 <= i < apps.len() && apps[i].id == id && (forall|j: int|
        0 <= j < i ==> (#[trigger] apps[j]).id != id) {
        lemma_first_app(apps, id, i);
    }
    if 0 <= k < models.len() && models[k].id == id && (forall|j: int|
        0 <= j < k ==> (#[trigger] models[j]).id != id) {
        lemma_first_model(models, id, k);
    }
}

proof fn lemma_first_app(apps: Seq<AppDefView>, id: Seq<char>, i: int)
    requires
        0 <= i < apps.len(),
        apps[i].id == id,
        forall|j: int| 0 <= j < i ==> (#[trigger] apps[j]).id != id,
    ensures
        app_with_id(apps, id) == Some(apps[i]),
    decreases i,
{
    if i > 0 {
        let rest = apps.drop_first();
        assert(apps[0].id != id);
        assert forall|j: int| 0 <= j < i - 1 implies (#[trigger] rest[j]).id != id by {
            assert(rest[j] == apps[j + 1]);
        }
        lemma_first_app(rest, id, i - 1);
    }
}

proof fn lemma_first_model(models: Seq<ModelDefView>, id: Seq<char>, i: int)
    requires
        0 <= i < models.len(),
        models[i].id == id,
        forall|j: int| 0 <= j < i ==> (#[trigger] models[j]).id != id,
    ensures
        model_with_id(models, id) == Some(models[i]),
    decreases i,
{
    if i > 0 {
        let rest = models.drop_first();
        assert(models[0].id != id);
        assert forall|j: int| 0 <= j < i - 1 implies (#[trigger] rest[j]).id != id by {
            assert(rest[j] == models[j + 1]);
        }
        lemma_first_model(rest, id, i - 1);
    }
}

/// A model can be used exactly if its weights are there and, for
/// transcription, its configuration too. Where it cannot, the reason names the
/// missing file, the weights before the configuration.
pub proof fn law_what_a_model_needs(
    app_id: Seq<char>,
    model: ModelDefView,
    checkpoint_exists: bool,
    config_exists: bool,
)
    ensures
        needs_config(app_id) <==> app_id == "vocal2midi"@,
        ({
            let reason = unavailable_reason(app_id, model, checkpoint_exists, config_exists);
            &&& reason.len() == 0 <==> checkpoint_exists && (app_id == "vocal2midi"@
                ==> config_exists)
            &&& !checkpoint_exists ==> reason == "missing checkpoint "@ + (model.dir + "/"@
                + model.checkpoint)
            &&& checkpoint_exists && reason.len() > 0 ==> reason == "missing "@ + (model.dir
                + "/config.yaml"@)
        }),
{
    reveal_strlit("missing checkpoint ");
    reveal_strlit("missing ");
    reveal_strlit("");
    let reason = unavailable_reason(app_id, model, checkpoint_exists, config_exists);
    if !checkpoint_exists {
        assert(reason =~= "missing checkpoint "@ + (model.dir + "/"@ + model.checkpoint));
    } else if reason.len() > 0 {
        assert(reason =~= "missing "@ + (model.dir + "/config.yaml"@));
    }
}

/// A parameter is described by what it was made from: its key, its label, its
/// default and, as its kind has them, its bounds, unit and options.
pub proof fn law_parameters_are_described_as_made(
    key: Seq<char>,
    label: Seq<char>,
    unit: Seq<char>,
    text: Seq<char>,
    options: Seq<Seq<char>>,
    n: i64,
    low: i64,
    high: i64,
    number: Decimal,
    min: Decimal,
    max: Decimal,
    step: Decimal,
)
    ensures
        int_def(key, label, n, low, high, unit) == (ParamDefView {
            key,
            label,
            kind: "int"@,
            default: ParamValueView::Int(n),
            min: Some(Decimal { mantissa: low, places: 0 }),
            max: Some(Decimal { mantissa: high, places: 0 }),
            step: Some(Decimal { mantissa: 1, places: 0 }),
            unit: Some(unit),
            options: None,
        }),
        float_def(key, label, number, min, max, step) == (ParamDefView {
            key,
            label,
            kind: "float"@,
            default: ParamValueView::Number(number),
            min: Some(min),
            max: Some(max),
            step: Some(step),
            unit: None,
            options: None,
        }),
        select_def(key, label, text, options) == (ParamDefView {
            key,
            label,
            kind: "select"@,
            default: ParamValueView::Text(text),
            min: None,
            max: None,
            step: None,
            unit: None,
            options: Some(options),
        }),
{
}

/// Each parameter of the catalogue has the default and the bounds that its kind
/// calls for: whole numbers go in steps of one and have a unit, texts have
/// options and no bounds.
pub proof fn law_parameters_fit_their_kind(i: int, k: int, p: int)
    requires
        0 <= i < catalogue().len(),
        0 <= k < catalogue()[i].models.len(),
        0 <= p < catalogue()[i].models[k].params.len(),
    ensures
        ({
            let d = catalogue()[i].models[k].params[p];
            ||| d.kind == "int"@ && d.default is Int && d.min is Some && d.max is Some && d.step
                == Some(Decimal { mantissa: 1, places: 0 }) && d.unit is Some && d.options is None
            ||| d.kind == "float"@ && d.default is Number && d.min is Some && d.max is Some
                && d.step is Some && d.step->Some_0.mantissa > 0 && d.unit is None
                && d.options is None
            ||| d.kind == "select"@ && d.default is Text && d.min is None && d.max is None
                && d.step is None && d.unit is None && d.options is Some
        }),
        catalogue()[i].models[k].label == catalogue()[i].models[k].id,
        catalogue()[i].models[k].dir == catalogue()[i].models[k].id,
{
}

/// Whether a parameter is a whole number with the bounds.
pub open spec fn goes_from_to(param: ParamDefView, min: i64, max: i64) -> bool {
    &&& param.min == Some(Decimal { mantissa: min, places: 0 })
    &&& param.max == Some(Decimal { mantissa: max, places: 0 })
}

/// Wherever the catalogue offers a whole number under a key, it has the same
/// bounds and default: chunks of one to thirty seconds, one to eight
/// overlapping windows, one to sixteen chunks a batch, one to sixty-four steps.
pub proof fn law_bounds_of_whole_numbers(i: int, k: int, p: int)
    requires
        0 <= i < catalogue().len(),
        0 <= k < catalogue()[i].models.len(),
        0 <= p < catalogue()[i].models[k].params.len(),
    ensures
        ({
            let d = catalogue()[i].models[k].params[p];
            &&& d.key == "chunk_size"@ ==> goes_from_to(d, 1, 30) && d.default
                == ParamValueView::Int(8)
            &&& d.key == "overlap"@ ==> goes_from_to(d, 1, 8) && d.default == ParamValueView::Int(2)
            &&& d.key == "batch_size"@ ==> goes_from_to(d, 1, 16) && d.default
                == ParamValueView::Int(4)
            &&& d.key == "nsteps"@ ==> goes_from_to(d, 1, 64) && d.default == ParamValueView::Int(8)
            &&& d.key == "chunk_frames"@ ==> goes_from_to(d, 1, 64) && d.default
                == ParamValueView::Int(8)
            &&& d.key == "left_context"@ ==> goes_from_to(d, 1, 256) && d.default
                == ParamValueView::Int(129)
            &&& d.key == "right_context"@ ==> goes_from_to(d, 0, 256) && d.default
                == ParamValueView::Int(129)
        }),
{
    lemma_keys_differ();
}

/// Wherever the catalogue offers a fraction under a key, it has the same
/// bounds: thresholds and the start from nought to one, the radius to a half,
/// the tempo from twenty to three hundred.
pub proof fn law_bounds_of_fractions(i: int, k: int, p: int)
    requires
        0 <= i < catalogue().len(),
        0 <= k < catalogue()[i].models.len(),
        0 <= p < catalogue()[i].models[k].params.len(),
    ensures
        ({
            let d = catalogue()[i].models[k].params[p];
            let one = Decimal { mantissa: 10, places: 1 };
            let nought = Decimal { mantissa: 0, places: 1 };
            let half = Decimal { mantissa: 5, places: 1 };
            let twentieth = Decimal { mantissa: 5, places: 2 };
            &&& d.key == "t0"@ || d.key == "seg_threshold"@ || d.key == "est_threshold"@ ==> d.min
                == Some(nought) && d.max == Some(one) && d.step == Some(twentieth)
            &&& d.key == "seg_radius"@ ==> d.min == Some(nought) && d.max == Some(half) && d.step
                == Some(Decimal { mantissa: 1, places: 2 })
            &&& d.key == "tempo"@ ==> d.min == Some(Decimal { mantissa: 200, places: 1 }) && d.max
                == Some(Decimal { mantissa: 3000, places: 1 }) && d.step == Some(one)
        }),
{
    lemma_keys_differ();
}

/// No two parameters of a model share a key.
pub proof fn law_keys_are_unique(i: int, k: int, p: int, q: int)
    requires
        0 <= i < catalogue().len(),
        0 <= k < catalogue()[i].models.len(),
        0 <= p < q < catalogue()[i].models[k].params.len(),
    ensures
        catalogue()[i].models[k].params[p].key != catalogue()[i].models[k].params[q].key,
{
    lemma_keys_differ();
}

/// The keys of the parameters differ, by their lengths or a character.
proof fn lemma_keys_differ()
    ensures
        "device"@.len() == 6 && "device"@[0] == 'd',
        "mode"@.len() == 4,
        "chunk_frames"@.len() == 12 && "chunk_frames"@[0] == 'c',
        "left_context"@.len() == 12 && "left_context"@[0] == 'l',
        "right_context"@.len() == 13 && "right_context"@[0] == 'r',
        "t0"@.len() == 2,
        "nsteps"@.len() == 6 && "nsteps"@[0] == 'n',
        "seg_threshold"@.len() == 13 && "seg_threshold"@[0] == 's',
        "seg_radius"@.len() == 10 && "seg_radius"@[0] == 's',
        "est_threshold"@.len() == 13 && "est_threshold"@[0] == 'e',
        "tempo"@.len() == 5,
        "language"@.len() == 8,
        "chunk_size"@.len() == 10 && "chunk_size"@[0] == 'c',
        "overlap"@.len() == 7,
        "batch_size"@.len() == 10 && "batch_size"@[0] == 'b',
{
    reveal_strlit("device");
    reveal_strlit("mode");
    reveal_strlit("chunk_frames");
    reveal_strlit("left_context");
    reveal_strlit("right_context");
    reveal_strlit("t0");
    reveal_strlit("nsteps");
    reveal_strlit("seg_threshold");
    reveal_strlit("seg_radius");
    reveal_strlit("est_threshold");
    reveal_strlit("tempo");
    reveal_strlit("language");
    reveal_strlit("chunk_size");
    reveal_strlit("overlap");
    reveal_strlit("batch_size");
}

/// Wherever the catalogue offers a choice under a key, it is the same choice.
pub proof fn law_choices(i: int, k: int, p: int)
    requires
        0 <= i < catalogue().len(),
        0 <= k < catalogue()[i].models.len(),
        0 <= p < catalogue()[i].models[k].params.len(),
    ensures
        ({
            let d = catalogue()[i].models[k].params[p];
            &&& d.key == "device"@ ==> d.options == Some(seq!["gpu"@, "cpu"@])
            &&& d.key == "mode"@ ==> d.options == Some(seq!["batch"@, "streaming"@])
            &&& d.key == "language"@ ==> d.options == Some(
                seq!["none"@, "en"@, "ja"@, "yue"@, "zh"@],
            )
        }),
{
    lemma_keys_differ();
}

/// Whole numbers of the catalogue are counted in the same unit under the same
/// key.
pub proof fn law_units(i: int, k: int, p: int)
    requires
        0 <= i < catalogue().len(),
        0 <= k < catalogue()[i].models.len(),
        0 <= p < catalogue()[i].models[k].params.len(),
    ensures
        ({
            let d = catalogue()[i].models[k].params[p];
            &&& d.key == "chunk_size"@ ==> d.unit == Some("sec"@)
            &&& d.key == "overlap"@ ==> d.unit == Some("windows"@)
            &&& d.key == "batch_size"@ ==> d.unit == Some("chunks"@)
            &&& d.key == "nsteps"@ ==> d.unit == Some("steps"@)
            &&& d.key == "chunk_frames"@ || d.key == "left_context"@ || d.key == "right_context"@
                ==> d.unit == Some("frames"@)
        }),
{
    lemma_keys_differ();
}

/// Parameters of the catalogue have the same label under the same key.
pub proof fn law_labels(i: int, k: int, p: int)
    requires
        0 <= i < catalogue().len(),
        0 <= k < catalogue()[i].models.len(),
        0 <= p < catalogue()[i].models[k].params.len(),
    ensures
        ({
            let d = catalogue()[i].models[k].params[p];
            &&& d.key == "device"@ ==> d.label == "Device"@
            &&& d.key == "mode"@ ==> d.label == "Mode"@
            &&& d.key == "chunk_frames"@ ==> d.label == "Chunk frames"@
            &&& d.key == "left_context"@ ==> d.label == "Left context"@
            &&& d.key == "right_context"@ ==> d.label == "Right context"@
            &&& d.key == "t0"@ ==> d.label == "D3PM start (t0)"@
            &&& d.key == "nsteps"@ ==> d.label == "Denoising steps"@
            &&& d.key == "seg_threshold"@ ==> d.label == "Boundary threshold"@
            &&& d.key == "seg_radius"@ ==> d.label == "Boundary radius"@
            &&& d.key == "est_threshold"@ ==> d.label == "Presence threshold"@
            &&& d.key == "tempo"@ ==> d.label == "MIDI tempo"@
            &&& d.key == "language"@ ==> d.label == "Language"@
            &&& d.key == "chunk_size"@ ==> d.label == "Chunk size"@
            &&& d.key == "overlap"@ ==> d.label == "Overlap"@
            &&& d.key == "batch_size"@ ==> d.label == "Batch size"@
        }),
{
    lemma_keys_differ();
}

/// Each app of the catalogue is shown as what it is: under its label and icon,
/// with what it does, and with its own models.
pub proof fn law_apps_are_shown_as_what_they_are(i: int)
    requires
        0 <= i < catalogue().len(),
    ensures
        ({
            let app = catalogue()[i];
            &&& app.id == "vocal-enhance"@ || app.id == "vocal2midi"@ || app.id
                == "source-separation"@
            &&& app.id == "vocal-enhance"@ ==> app.label == "Vocal enhance"@ && app.icon
                == "sparkle"@ && app.models.len() == 1 && app.description
                == "Restore and enhance a vocal recording with the Smule Renaissance model. 48 kHz mono output."@
            &&& app.id == "vocal2midi"@ ==> app.label == "Vocal to MIDI"@ && app.icon
                == "piano-keys"@ && app.models.len() == 1 && app.description
                == "Transcribe singing voice into continuous-pitch note events with GAME. Exports MIDI and JSON."@
            &&& app.id == "source-separation"@ ==> app.label == "Source separation"@ && app.icon
                == "arrows-split"@ && app.models.len() == 2 && app.description
                == "Split a stereo mix into vocal and instrumental stems with Mel-Band Roformer. 44.1 kHz stereo WAV."@
        }),
{
    lemma_app_ids_differ();
}

/// Each model of the catalogue offers the settings of its pipeline, in the order
/// in which they are shown.
pub proof fn law_models_offer_their_settings(i: int, k: int)
    requires
        0 <= i < catalogue().len(),
        0 <= k < catalogue()[i].models.len(),
    ensures
        ({
            let keys = catalogue()[i].models[k].params.map_values(|d: ParamDefView| d.key);
            &&& catalogue()[i].id == "vocal-enhance"@ ==> keys == seq![
                "device"@,
                "mode"@,
                "chunk_frames"@,
                "left_context"@,
                "right_context"@,
            ]
            &&& catalogue()[i].id == "vocal2midi"@ ==> keys == seq![
                "t0"@,
                "nsteps"@,
                "seg_threshold"@,
                "seg_radius"@,
                "est_threshold"@,
                "tempo"@,
                "language"@,
            ]
            &&& catalogue()[i].models[k].variant == "full"@ ==> keys == seq![
                "chunk_size"@,
                "overlap"@,
            ]
            &&& catalogue()[i].models[k].variant == "wsa"@ ==> keys == seq![
                "chunk_size"@,
                "batch_size"@,
            ]
        }),
{
    lemma_app_ids_differ();
    reveal_strlit("full");
    reveal_strlit("wsa");
    reveal_strlit("default");
    assert("full"@.len() == 4 && "wsa"@.len() == 3 && "default"@.len() == 7);
    let keys = catalogue()[i].models[k].params.map_values(|d: ParamDefView| d.key);
    if i == 0 {
        assert(keys =~= seq![
            "device"@,
            "mode"@,
            "chunk_frames"@,
            "left_context"@,
            "right_context"@,
        ]);
    } else if i == 1 {
        assert(keys =~= seq![
            "t0"@,
            "nsteps"@,
            "seg_threshold"@,
            "seg_radius"@,
            "est_threshold"@,
            "tempo"@,
            "language"@,
        ]);
    } else if k == 0 {
        assert(keys =~= seq!["chunk_size"@, "overlap"@]);
    } else {
        assert(keys =~= seq!["chunk_size"@, "batch_size"@]);
    }
}

} // verus!

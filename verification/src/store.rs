//! The state store: the two singleton documents (affection progress and
//! application settings), their defaults, and their document rules.
//! Affection documents parse strictly: every field is mandatory and a
//! missing or ill-typed one is corruption. Settings documents parse
//! leniently: a missing field takes its individual default, so documents
//! written by older schemas stay loadable.

use vstd::prelude::*;
use crate::json::{Json, JsonValue, json_text, sp_json, to_json_text, parse_json, obj_view, lemma_obj_view, obj_get, lemma_obj_get_at, str_field, obj_field, get_string_field};

verus! {

broadcast use vstd::std_specs::vec::group_vec_axioms, vstd::seq::group_seq_axioms;

/// The persisted affection metric.
#[derive(Debug, Clone)]
pub struct AffectionData {
    pub level: u32,
    pub total_messages: u32,
    pub last_interaction: String,
    pub first_interaction: String,
    pub days_spoken: u32,
}

/// Mathematical model of an affection record.
pub struct AffectionModel {
    pub level: u32,
    pub total_messages: u32,
    pub last_interaction: Seq<char>,
    pub first_interaction: Seq<char>,
    pub days_spoken: u32,
}

impl View for AffectionData {
    type V = AffectionModel;

    open spec fn view(&self) -> AffectionModel {
        AffectionModel {
            level: self.level,
            total_messages: self.total_messages,
            last_interaction: self.last_interaction@,
            first_interaction: self.first_interaction@,
            days_spoken: self.days_spoken,
        }
    }
}

/// The all-default affection record: zero progress, empty timestamps.
pub open spec fn affection_default() -> AffectionModel {
    AffectionModel {
        level: 0,
        total_messages: 0,
        last_interaction: Seq::empty(),
        first_interaction: Seq::empty(),
        days_spoken: 0,
    }
}

impl Default for AffectionData {
    /// The value an absent affection document stands for.
    fn default() -> (d: AffectionData)
        ensures
            d@ == affection_default(),
    {
        AffectionData {
            level: 0,
            total_messages: 0,
            last_interaction: String::new(),
            first_interaction: String::new(),
            days_spoken: 0,
        }
    }
}

/// A mandatory unsigned field that must fit the target width.
pub open spec fn num_field_u32(fields: Seq<(Seq<char>, Json)>, key: Seq<char>) -> Option<u32> {
    match obj_get(fields, key) {
        Some(Json::Num(n)) => if n <= u32::MAX { Some(n as u32) } else { None },
        _ => None,
    }
}

/// The document tree an affection record is written as: all five fields,
/// in this fixed order.
pub open spec fn affection_json(d: AffectionModel) -> Json {
    Json::Obj(seq![
        ("level"@, Json::Num(d.level as u64)),
        ("total_messages"@, Json::Num(d.total_messages as u64)),
        ("last_interaction"@, Json::Str(d.last_interaction)),
        ("first_interaction"@, Json::Str(d.first_interaction)),
        ("days_spoken"@, Json::Num(d.days_spoken as u64)),
    ])
}

/// Strict reading of an affection record: the tree must be an object and
/// every one of the five fields must be present with the right type.
pub open spec fn affection_of_json(v: Json) -> Option<AffectionModel> {
    match v {
        Json::Obj(fields) => match (
            num_field_u32(fields, "level"@),
            num_field_u32(fields, "total_messages"@),
            str_field(fields, "last_interaction"@),
            str_field(fields, "first_interaction"@),
            num_field_u32(fields, "days_spoken"@),
        ) {
            (Some(level), Some(total), Some(last), Some(first), Some(days)) => Some(
                AffectionModel {
                    level: level,
                    total_messages: total,
                    last_interaction: last,
                    first_interaction: first,
                    days_spoken: days,
                },
            ),
            _ => None,
        },
        _ => None,
    }
}

/// Builds the document tree for `d`, exactly as `affection_json` says.
pub fn affection_to_json(d: &AffectionData) -> (v: JsonValue)
    ensures
        v@ == affection_json(d@),
{
    let mut fields: Vec<(String, JsonValue)> = Vec::new();
    fields.push((String::from_str("level"), JsonValue::Num(d.level as u64)));
    fields.push((String::from_str("total_messages"), JsonValue::Num(d.total_messages as u64)));
    fields.push((String::from_str("last_interaction"), JsonValue::Str(d.last_interaction.clone())));
    fields.push((String::from_str("first_interaction"), JsonValue::Str(d.first_interaction.clone())));
    fields.push((String::from_str("days_spoken"), JsonValue::Num(d.days_spoken as u64)));
    let ghost fsv = fields@;
    let out = JsonValue::Obj(fields);
    proof {
        lemma_obj_view(fsv);
        assert(fsv.len() == 5);
        assert(fsv[0].0@ == "level"@ && fsv[0].1@ == Json::Num(d.level as u64));
        assert(fsv[1].0@ == "total_messages"@ && fsv[1].1@ == Json::Num(d.total_messages as u64));
        assert(fsv[2].0@ == "last_interaction"@ && fsv[2].1@ == Json::Str(d.last_interaction@));
        assert(fsv[3].0@ == "first_interaction"@ && fsv[3].1@ == Json::Str(d.first_interaction@));
        assert(fsv[4].0@ == "days_spoken"@ && fsv[4].1@ == Json::Num(d.days_spoken as u64));
        assert(obj_view(fsv) =~~= seq![
            ("level"@, Json::Num(d.level as u64)),
            ("total_messages"@, Json::Num(d.total_messages as u64)),
            ("last_interaction"@, Json::Str(d.last_interaction@)),
            ("first_interaction"@, Json::Str(d.first_interaction@)),
            ("days_spoken"@, Json::Num(d.days_spoken as u64)),
        ]);
    }
    assert(out@ == affection_json(d@));
    out
}

/// A mandatory unsigned field of an object, as `num_field_u32` says.
fn get_u32_field(fields: &Vec<(String, JsonValue)>, key: &String) -> (r: Option<u32>)
    ensures
        r == num_field_u32(obj_view(fields@), key@),
{
    match obj_field(fields, key) {
        Some(JsonValue::Num(n)) => if *n <= 0xffff_ffff_u64 {
            Some(*n as u32)
        } else {
            None
        },
        _ => None,
    }
}

/// Strict reading of `v` as an affection record, as `affection_of_json`
/// says. An ill-shaped document is corruption, reported as an error.
pub fn affection_from_json(v: &JsonValue) -> (r: Result<AffectionData, String>)
    ensures
        match (r, affection_of_json(v@)) {
            (Ok(d), Some(m)) => d@ == m,
            (Err(e), None) => e@ == "Failed to parse affection data"@,
            _ => false,
        },
{
    match v {
        JsonValue::Obj(fields) => {
            let k_level = String::from_str("level");
            let k_total = String::from_str("total_messages");
            let k_last = String::from_str("last_interaction");
            let k_first = String::from_str("first_interaction");
            let k_days = String::from_str("days_spoken");
            let level = get_u32_field(fields, &k_level);
            let total = get_u32_field(fields, &k_total);
            let last = get_string_field(fields, &k_last);
            let first = get_string_field(fields, &k_first);
            let days = get_u32_field(fields, &k_days);
            match (level, total, last, first, days) {
                (Some(level), Some(total), Some(last), Some(first), Some(days)) => Ok(
                    AffectionData {
                        level,
                        total_messages: total,
                        last_interaction: last,
                        first_interaction: first,
                        days_spoken: days,
                    },
                ),
                _ => Err(String::from_str("Failed to parse affection data")),
            }
        },
        _ => Err(String::from_str("Failed to parse affection data")),
    }
}

/// The text of an optional document.
pub open spec fn opt_text(doc: Option<&str>) -> Option<Seq<char>> {
    match doc {
        Some(t) => Some(t@),
        None => None,
    }
}

/// What loading affection yields for a given document state: the default
/// when no document exists, the strict reading otherwise.
pub open spec fn affection_load(doc: Option<Seq<char>>) -> Option<AffectionModel> {
    match doc {
        None => Some(affection_default()),
        Some(text) => match sp_json(text) {
            Some(v) => affection_of_json(v),
            None => None,
        },
    }
}

/// Reads the affection record out of the document text, or the default
/// where no document exists; an unreadable document is a hard error.
pub fn load_affection(doc: Option<&str>) -> (r: Result<AffectionData, String>)
    ensures
        match (r, affection_load(opt_text(doc))) {
            (Ok(d), Some(m)) => d@ == m,
            (Err(e), None) => e@ == "Failed to parse affection data"@,
            _ => false,
        },
{
    match doc {
        None => Ok(AffectionData::default()),
        Some(text) => match parse_json(text) {
            Some(v) => affection_from_json(&v),
            None => Err(String::from_str("Failed to parse affection data")),
        },
    }
}

/// The document text written for `d`: its tree, pretty-printed.
pub fn affection_document(d: &AffectionData) -> (s: String)
    ensures
        s@ == json_text(affection_json(d@), Seq::<char>::empty()),
{
    let v = affection_to_json(d);
    to_json_text(&v)
}

/// Law: reading the document tree written for an affection record back,
/// strictly, yields that record unchanged.
pub proof fn lemma_affection_round_trip(d: AffectionModel)
    ensures
        affection_of_json(affection_json(d)) == Some(d),
{
    reveal_strlit("level");
    reveal_strlit("total_messages");
    reveal_strlit("last_interaction");
    reveal_strlit("first_interaction");
    reveal_strlit("days_spoken");
    assert("level"@.len() == 5);
    assert("total_messages"@.len() == 14);
    assert("last_interaction"@.len() == 16);
    assert("first_interaction"@.len() == 17);
    assert("days_spoken"@.len() == 11);
    let fs = seq![
        ("level"@, Json::Num(d.level as u64)),
        ("total_messages"@, Json::Num(d.total_messages as u64)),
        ("last_interaction"@, Json::Str(d.last_interaction)),
        ("first_interaction"@, Json::Str(d.first_interaction)),
        ("days_spoken"@, Json::Num(d.days_spoken as u64)),
    ];
    assert(fs.len() == 5);
    lemma_obj_get_at(fs, "level"@, 0);
    lemma_obj_get_at(fs, "total_messages"@, 1);
    lemma_obj_get_at(fs, "last_interaction"@, 2);
    lemma_obj_get_at(fs, "first_interaction"@, 3);
    lemma_obj_get_at(fs, "days_spoken"@, 4);
    assert(affection_of_json(affection_json(d)) == Some(d));
}

/// The persisted user preferences. Every field has an individual
/// default, taken whenever a stored document lacks the field.
#[derive(Debug, Clone)]
pub struct AppSettings {
    pub ollama_model: String,
    pub voice_id: String,
    pub voice_enabled: bool,
    pub vrm_model_path: Option<String>,
    pub nsfw_enabled: bool,
    pub user_name: Option<String>,
    pub memories: Option<String>,
    pub selected_outfit: Option<String>,
    pub selected_hair: Option<String>,
    pub selected_stage: Option<String>,
    pub selected_hair_color: Option<String>,
    pub captions_enabled: Option<bool>,
    pub affection_data: Option<AffectionData>,
}

/// Mathematical model of a settings record.
pub struct SettingsModel {
    pub ollama_model: Seq<char>,
    pub voice_id: Seq<char>,
    pub voice_enabled: bool,
    pub vrm_model_path: Option<Seq<char>>,
    pub nsfw_enabled: bool,
    pub user_name: Option<Seq<char>>,
    pub memories: Option<Seq<char>>,
    pub selected_outfit: Option<Seq<char>>,
    pub selected_hair: Option<Seq<char>>,
    pub selected_stage: Option<Seq<char>>,
    pub selected_hair_color: Option<Seq<char>>,
    pub captions_enabled: Option<bool>,
    pub affection_data: Option<AffectionModel>,
}

/// View of an optional owned string.
pub open spec fn opt_str_view(o: Option<String>) -> Option<Seq<char>> {
    match o {
        Some(s) => Some(s@),
        None => None,
    }
}

impl View for AppSettings {
    type V = SettingsModel;

    open spec fn view(&self) -> SettingsModel {
        SettingsModel {
            ollama_model: self.ollama_model@,
            voice_id: self.voice_id@,
            voice_enabled: self.voice_enabled,
            vrm_model_path: opt_str_view(self.vrm_model_path),
            nsfw_enabled: self.nsfw_enabled,
            user_name: opt_str_view(self.user_name),
            memories: opt_str_view(self.memories),
            selected_outfit: opt_str_view(self.selected_outfit),
            selected_hair: opt_str_view(self.selected_hair),
            selected_stage: opt_str_view(self.selected_stage),
            selected_hair_color: opt_str_view(self.selected_hair_color),
            captions_enabled: self.captions_enabled,
            affection_data: match self.affection_data {
                Some(a) => Some(a@),
                None => None,
            },
        }
    }
}

/// The all-default settings record.
pub open spec fn settings_default() -> SettingsModel {
    SettingsModel {
        ollama_model: "llama3.2"@,
        voice_id: "af_heart"@,
        voice_enabled: true,
        vrm_model_path: None,
        nsfw_enabled: false,
        user_name: None,
        memories: None,
        selected_outfit: None,
        selected_hair: None,
        selected_stage: None,
        selected_hair_color: None,
        captions_enabled: Some(true),
        affection_data: None,
    }
}

impl Default for AppSettings {
    /// The value an absent settings document stands for.
    fn default() -> (s: AppSettings)
        ensures
            s@ == settings_default(),
    {
        AppSettings {
            ollama_model: String::from_str("llama3.2"),
            voice_id: String::from_str("af_heart"),
            voice_enabled: true,
            vrm_model_path: None,
            nsfw_enabled: false,
            user_name: None,
            memories: None,
            selected_outfit: None,
            selected_hair: None,
            selected_stage: None,
            selected_hair_color: None,
            captions_enabled: Some(true),
            affection_data: None,
        }
    }
}

/// A lenient string field: its default when absent, its value when a
/// string, a failure on any other kind of value.
pub open spec fn len_str(fields: Seq<(Seq<char>, Json)>, key: Seq<char>, dflt: Seq<char>) -> Option<Seq<char>> {
    match obj_get(fields, key) {
        None => Some(dflt),
        Some(Json::Str(s)) => Some(s),
        Some(_) => None,
    }
}

/// A lenient optional string field: absent when missing or null.
pub open spec fn len_opt_str(fields: Seq<(Seq<char>, Json)>, key: Seq<char>) -> Option<Option<Seq<char>>> {
    match obj_get(fields, key) {
        None => Some(None),
        Some(Json::Null) => Some(None),
        Some(Json::Str(s)) => Some(Some(s)),
        Some(_) => None,
    }
}

/// A lenient boolean field.
pub open spec fn len_bool(fields: Seq<(Seq<char>, Json)>, key: Seq<char>, dflt: bool) -> Option<bool> {
    match obj_get(fields, key) {
        None => Some(dflt),
        Some(Json::Bool(b)) => Some(b),
        Some(_) => None,
    }
}

/// A lenient optional boolean field, with its own default when missing.
pub open spec fn len_opt_bool(fields: Seq<(Seq<char>, Json)>, key: Seq<char>, dflt: Option<bool>) -> Option<Option<bool>> {
    match obj_get(fields, key) {
        None => Some(dflt),
        Some(Json::Null) => Some(None),
        Some(Json::Bool(b)) => Some(Some(b)),
        Some(_) => None,
    }
}

/// A lenient embedded affection snapshot: absent when missing or null,
/// otherwise read strictly as every affection record is.
pub open spec fn len_affection(fields: Seq<(Seq<char>, Json)>, key: Seq<char>) -> Option<Option<AffectionModel>> {
    match obj_get(fields, key) {
        None => Some(None),
        Some(Json::Null) => Some(None),
        Some(v) => match affection_of_json(v) {
            Some(a) => Some(Some(a)),
            None => None,
        },
    }
}

/// How an optional string stands in a document: the string or null.
pub open spec fn opt_str_json(o: Option<Seq<char>>) -> Json {
    match o {
        Some(s) => Json::Str(s),
        None => Json::Null,
    }
}

/// How an optional boolean stands in a document: the boolean or null.
pub open spec fn opt_bool_json(o: Option<bool>) -> Json {
    match o {
        Some(b) => Json::Bool(b),
        None => Json::Null,
    }
}

/// How an optional affection snapshot stands in a document.
pub open spec fn opt_affection_json(o: Option<AffectionModel>) -> Json {
    match o {
        Some(a) => affection_json(a),
        None => Json::Null,
    }
}

/// The document tree a settings record is written as: all thirteen
/// fields, in this fixed order, absent options written as null.
pub open spec fn settings_json(s: SettingsModel) -> Json {
    Json::Obj(seq![
        ("ollama_model"@, Json::Str(s.ollama_model)),
        ("voice_id"@, Json::Str(s.voice_id)),
        ("voice_enabled"@, Json::Bool(s.voice_enabled)),
        ("vrm_model_path"@, opt_str_json(s.vrm_model_path)),
        ("nsfw_enabled"@, Json::Bool(s.nsfw_enabled)),
        ("userName"@, opt_str_json(s.user_name)),
        ("memories"@, opt_str_json(s.memories)),
        ("selectedOutfit"@, opt_str_json(s.selected_outfit)),
        ("selectedHair"@, opt_str_json(s.selected_hair)),
        ("selectedStage"@, opt_str_json(s.selected_stage)),
        ("selectedHairColor"@, opt_str_json(s.selected_hair_color)),
        ("captionsEnabled"@, opt_bool_json(s.captions_enabled)),
        ("affectionData"@, opt_affection_json(s.affection_data)),
    ])
}

/// Lenient reading of a settings record: the tree must be an object, and
/// each field, where present, must hold the right kind of value; every
/// missing field takes its individual default.
pub open spec fn settings_of_json(v: Json) -> Option<SettingsModel> {
    match v {
        Json::Obj(fields) => match (
            len_str(fields, "ollama_model"@, "llama3.2"@),
            len_str(fields, "voice_id"@, "af_heart"@),
            len_bool(fields, "voice_enabled"@, true),
            len_opt_str(fields, "vrm_model_path"@),
            len_bool(fields, "nsfw_enabled"@, false),
        ) {
            (Some(model), Some(voice), Some(venab), Some(vrm), Some(nsfw)) => match (
                len_opt_str(fields, "userName"@),
                len_opt_str(fields, "memories"@),
                len_opt_str(fields, "selectedOutfit"@),
                len_opt_str(fields, "selectedHair"@),
                len_opt_str(fields, "selectedStage"@),
                len_opt_str(fields, "selectedHairColor"@),
                len_opt_bool(fields, "captionsEnabled"@, Some(true)),
                len_affection(fields, "affectionData"@),
            ) {
                (Some(user), Some(mem), Some(outfit), Some(hair), Some(stage), Some(hairc), Some(capt), Some(aff)) => Some(
                    SettingsModel {
                        ollama_model: model,
                        voice_id: voice,
                        voice_enabled: venab,
                        vrm_model_path: vrm,
                        nsfw_enabled: nsfw,
                        user_name: user,
                        memories: mem,
                        selected_outfit: outfit,
                        selected_hair: hair,
                        selected_stage: stage,
                        selected_hair_color: hairc,
                        captions_enabled: capt,
                        affection_data: aff,
                    },
                ),
                _ => None,
            },
            _ => None,
        },
        _ => None,
    }
}

/// Law: an affection document that lacks any one of the five mandatory
/// fields never yields a record.
pub proof fn lemma_affection_strict(fields: Seq<(Seq<char>, Json)>)
    requires
        obj_get(fields, "level"@) is None
            || obj_get(fields, "total_messages"@) is None
            || obj_get(fields, "last_interaction"@) is None
            || obj_get(fields, "first_interaction"@) is None
            || obj_get(fields, "days_spoken"@) is None,
    ensures
        affection_of_json(Json::Obj(fields)) is None,
{
}

/// A lenient string field of an object, as `len_str` says.
fn len_str_field(fields: &Vec<(String, JsonValue)>, key: &String, dflt: &str) -> (r: Option<String>)
    ensures
        match (r, len_str(obj_view(fields@), key@, dflt@)) {
            (Some(s), Some(m)) => s@ == m,
            (None, None) => true,
            _ => false,
        },
{
    match obj_field(fields, key) {
        None => Some(String::from_str(dflt)),
        Some(JsonValue::Str(s)) => Some(s.clone()),
        Some(_) => None,
    }
}

/// A lenient optional string field of an object, as `len_opt_str` says.
fn len_opt_str_field(fields: &Vec<(String, JsonValue)>, key: &String) -> (r: Option<Option<String>>)
    ensures
        match (r, len_opt_str(obj_view(fields@), key@)) {
            (Some(s), Some(m)) => opt_str_view(s) == m,
            (None, None) => true,
            _ => false,
        },
{
    match obj_field(fields, key) {
        None => Some(None),
        Some(JsonValue::Null) => Some(None),
        Some(JsonValue::Str(s)) => Some(Some(s.clone())),
        Some(_) => None,
    }
}

/// A lenient boolean field of an object, as `len_bool` says.
fn len_bool_field(fields: &Vec<(String, JsonValue)>, key: &String, dflt: bool) -> (r: Option<bool>)
    ensures
        r == len_bool(obj_view(fields@), key@, dflt),
{
    match obj_field(fields, key) {
        None => Some(dflt),
        Some(JsonValue::Bool(b)) => Some(*b),
        Some(_) => None,
    }
}

/// A lenient optional boolean field of an object, as `len_opt_bool` says.
fn len_opt_bool_field(fields: &Vec<(String, JsonValue)>, key: &String, dflt: Option<bool>) -> (r: Option<Option<bool>>)
    ensures
        r == len_opt_bool(obj_view(fields@), key@, dflt),
{
    match obj_field(fields, key) {
        None => Some(dflt),
        Some(JsonValue::Null) => Some(None),
        Some(JsonValue::Bool(b)) => Some(Some(*b)),
        Some(_) => None,
    }
}

/// A lenient embedded affection snapshot, as `len_affection` says.
fn len_affection_field(fields: &Vec<(String, JsonValue)>, key: &String) -> (r: Option<Option<AffectionData>>)
    ensures
        match (r, len_affection(obj_view(fields@), key@)) {
            (Some(Some(a)), Some(Some(m))) => a@ == m,
            (Some(None), Some(None)) => true,
            (None, None) => true,
            _ => false,
        },
{
    match obj_field(fields, key) {
        None => Some(None),
        Some(JsonValue::Null) => Some(None),
        Some(jv) => match affection_from_json(jv) {
            Ok(a) => Some(Some(a)),
            Err(_) => None,
        },
    }
}

/// How an optional owned string stands in a document tree.
fn opt_string_json(o: &Option<String>) -> (v: JsonValue)
    ensures
        v@ == opt_str_json(opt_str_view(*o)),
{
    match o {
        Some(s) => JsonValue::Str(s.clone()),
        None => JsonValue::Null,
    }
}

/// How an optional boolean stands in a document tree.
fn opt_bool_json_value(o: &Option<bool>) -> (v: JsonValue)
    ensures
        v@ == opt_bool_json(*o),
{
    match o {
        Some(b) => JsonValue::Bool(*b),
        None => JsonValue::Null,
    }
}

/// Builds the document tree for `s`, exactly as `settings_json` says.
#[verifier::rlimit(100)]
pub fn settings_to_json(s: &AppSettings) -> (v: JsonValue)
    ensures
        v@ == settings_json(s@),
{
    let mut fields: Vec<(String, JsonValue)> = Vec::new();
    fields.push((String::from_str("ollama_model"), JsonValue::Str(s.ollama_model.clone())));
    fields.push((String::from_str("voice_id"), JsonValue::Str(s.voice_id.clone())));
    fields.push((String::from_str("voice_enabled"), JsonValue::Bool(s.voice_enabled)));
    fields.push((String::from_str("vrm_model_path"), opt_string_json(&s.vrm_model_path)));
    fields.push((String::from_str("nsfw_enabled"), JsonValue::Bool(s.nsfw_enabled)));
    fields.push((String::from_str("userName"), opt_string_json(&s.user_name)));
    fields.push((String::from_str("memories"), opt_string_json(&s.memories)));
    fields.push((String::from_str("selectedOutfit"), opt_string_json(&s.selected_outfit)));
    fields.push((String::from_str("selectedHair"), opt_string_json(&s.selected_hair)));
    fields.push((String::from_str("selectedStage"), opt_string_json(&s.selected_stage)));
    fields.push((String::from_str("selectedHairColor"), opt_string_json(&s.selected_hair_color)));
    fields.push((String::from_str("captionsEnabled"), opt_bool_json_value(&s.captions_enabled)));
    let aff = match &s.affection_data {
        Some(a) => affection_to_json(a),
        None => JsonValue::Null,
    };
    assert(aff@ == opt_affection_json(s@.affection_data));
    fields.push((String::from_str("affectionData"), aff));
    let ghost fsv = fields@;
    let out = JsonValue::Obj(fields);
    proof {
        lemma_obj_view(fsv);
        assert(fsv.len() == 13);
        assert(fsv[0].0@ == "ollama_model"@ && fsv[0].1@ == Json::Str(s.ollama_model@));
        assert(fsv[1].0@ == "voice_id"@ && fsv[1].1@ == Json::Str(s.voice_id@));
        assert(fsv[2].0@ == "voice_enabled"@ && fsv[2].1@ == Json::Bool(s.voice_enabled));
        assert(fsv[3].0@ == "vrm_model_path"@ && fsv[3].1@ == opt_str_json(s@.vrm_model_path));
        assert(fsv[4].0@ == "nsfw_enabled"@ && fsv[4].1@ == Json::Bool(s.nsfw_enabled));
        assert(fsv[5].0@ == "userName"@ && fsv[5].1@ == opt_str_json(s@.user_name));
        assert(fsv[6].0@ == "memories"@ && fsv[6].1@ == opt_str_json(s@.memories));
        assert(fsv[7].0@ == "selectedOutfit"@ && fsv[7].1@ == opt_str_json(s@.selected_outfit));
        assert(fsv[8].0@ == "selectedHair"@ && fsv[8].1@ == opt_str_json(s@.selected_hair));
        assert(fsv[9].0@ == "selectedStage"@ && fsv[9].1@ == opt_str_json(s@.selected_stage));
        assert(fsv[10].0@ == "selectedHairColor"@ && fsv[10].1@ == opt_str_json(s@.selected_hair_color));
        assert(fsv[11].0@ == "captionsEnabled"@ && fsv[11].1@ == opt_bool_json(s@.captions_enabled));
        assert(fsv[12].0@ == "affectionData"@ && fsv[12].1@ == opt_affection_json(s@.affection_data));
        assert(obj_view(fsv) =~~= seq![
            ("ollama_model"@, Json::Str(s.ollama_model@)),
            ("voice_id"@, Json::Str(s.voice_id@)),
            ("voice_enabled"@, Json::Bool(s.voice_enabled)),
            ("vrm_model_path"@, opt_str_json(s@.vrm_model_path)),
            ("nsfw_enabled"@, Json::Bool(s.nsfw_enabled)),
            ("userName"@, opt_str_json(s@.user_name)),
            ("memories"@, opt_str_json(s@.memories)),
            ("selectedOutfit"@, opt_str_json(s@.selected_outfit)),
            ("selectedHair"@, opt_str_json(s@.selected_hair)),
            ("selectedStage"@, opt_str_json(s@.selected_stage)),
            ("selectedHairColor"@, opt_str_json(s@.selected_hair_color)),
            ("captionsEnabled"@, opt_bool_json(s@.captions_enabled)),
            ("affectionData"@, opt_affection_json(s@.affection_data)),
        ]);
    }
    assert(out@ == settings_json(s@));
    out
}

/// Lenient reading of `v` as a settings record, as `settings_of_json`
/// says; a field of the wrong kind is an error, a missing one is not.
pub fn settings_from_json(v: &JsonValue) -> (r: Result<AppSettings, String>)
    ensures
        match (r, settings_of_json(v@)) {
            (Ok(s), Some(m)) => s@ == m,
            (Err(e), None) => e@ == "Failed to parse settings"@,
            _ => false,
        },
{
    match v {
        JsonValue::Obj(fields) => {
            let k_model = String::from_str("ollama_model");
            let k_voice = String::from_str("voice_id");
            let k_venab = String::from_str("voice_enabled");
            let k_vrm = String::from_str("vrm_model_path");
            let k_nsfw = String::from_str("nsfw_enabled");
            let k_user = String::from_str("userName");
            let k_mem = String::from_str("memories");
            let k_outfit = String::from_str("selectedOutfit");
            let k_hair = String::from_str("selectedHair");
            let k_stage = String::from_str("selectedStage");
            let k_hairc = String::from_str("selectedHairColor");
            let k_capt = String::from_str("captionsEnabled");
            let k_aff = String::from_str("affectionData");
            let model = len_str_field(fields, &k_model, "llama3.2");
            let voice = len_str_field(fields, &k_voice, "af_heart");
            let venab = len_bool_field(fields, &k_venab, true);
            let vrm = len_opt_str_field(fields, &k_vrm);
            let nsfw = len_bool_field(fields, &k_nsfw, false);
            let user = len_opt_str_field(fields, &k_user);
            let mem = len_opt_str_field(fields, &k_mem);
            let outfit = len_opt_str_field(fields, &k_outfit);
            let hair = len_opt_str_field(fields, &k_hair);
            let stage = len_opt_str_field(fields, &k_stage);
            let hairc = len_opt_str_field(fields, &k_hairc);
            let capt = len_opt_bool_field(fields, &k_capt, Some(true));
            let aff = len_affection_field(fields, &k_aff);
            match (model, voice, venab, vrm, nsfw) {
                (Some(model), Some(voice), Some(venab), Some(vrm), Some(nsfw)) => match (
                    user, mem, outfit, hair, stage, hairc, capt, aff,
                ) {
                    (Some(user), Some(mem), Some(outfit), Some(hair), Some(stage), Some(hairc), Some(capt), Some(aff)) => Ok(
                        AppSettings {
                            ollama_model: model,
                            voice_id: voice,
                            voice_enabled: venab,
                            vrm_model_path: vrm,
                            nsfw_enabled: nsfw,
                            user_name: user,
                            memories: mem,
                            selected_outfit: outfit,
                            selected_hair: hair,
                            selected_stage: stage,
                            selected_hair_color: hairc,
                            captions_enabled: capt,
                            affection_data: aff,
                        },
                    ),
                    _ => Err(String::from_str("Failed to parse settings")),
                },
                _ => Err(String::from_str("Failed to parse settings")),
            }
        },
        _ => Err(String::from_str("Failed to parse settings")),
    }
}

/// What loading settings yields for a given document state: the default
/// when no document exists, the lenient reading otherwise.
pub open spec fn settings_load(doc: Option<Seq<char>>) -> Option<SettingsModel> {
    match doc {
        None => Some(settings_default()),
        Some(text) => match sp_json(text) {
            Some(v) => settings_of_json(v),
            None => None,
        },
    }
}

/// Reads the settings record out of the document text, or the default
/// where no document exists; an unreadable document is an error.
pub fn load_settings(doc: Option<&str>) -> (r: Result<AppSettings, String>)
    ensures
        match (r, settings_load(opt_text(doc))) {
            (Ok(s), Some(m)) => s@ == m,
            (Err(e), None) => e@ == "Failed to parse settings"@,
            _ => false,
        },
{
    match doc {
        None => Ok(AppSettings::default()),
        Some(text) => match parse_json(text) {
            Some(v) => settings_from_json(&v),
            None => Err(String::from_str("Failed to parse settings")),
        },
    }
}

/// The document text written for `s`: its tree, pretty-printed.
pub fn settings_document(s: &AppSettings) -> (t: String)
    ensures
        t@ == json_text(settings_json(s@), Seq::<char>::empty()),
{
    let v = settings_to_json(s);
    to_json_text(&v)
}

/// Law: a settings document that lacks every optional field loads to the
/// default for each of those fields; only the fields that are present
/// have a say in the result.
pub proof fn lemma_settings_missing_defaults(fields: Seq<(Seq<char>, Json)>, s: SettingsModel)
    requires
        settings_of_json(Json::Obj(fields)) == Some(s),
        obj_get(fields, "vrm_model_path"@) is None,
        obj_get(fields, "userName"@) is None,
        obj_get(fields, "memories"@) is None,
        obj_get(fields, "selectedOutfit"@) is None,
        obj_get(fields, "selectedHair"@) is None,
        obj_get(fields, "selectedStage"@) is None,
        obj_get(fields, "selectedHairColor"@) is None,
        obj_get(fields, "captionsEnabled"@) is None,
        obj_get(fields, "affectionData"@) is None,
    ensures
        s.vrm_model_path == settings_default().vrm_model_path,
        s.user_name == settings_default().user_name,
        s.memories == settings_default().memories,
        s.selected_outfit == settings_default().selected_outfit,
        s.selected_hair == settings_default().selected_hair,
        s.selected_stage == settings_default().selected_stage,
        s.selected_hair_color == settings_default().selected_hair_color,
        s.captions_enabled == settings_default().captions_enabled,
        s.affection_data == settings_default().affection_data,
{
}

/// Law: loading settings never fails on a document whose recognized
/// fields, where present, hold the right kind of value — in particular
/// never on account of a missing or an unrecognized field. The fields
/// this record does not recognize are left wholly unconstrained: they
/// may hold values of any kind the grammar reads, a number literal of
/// any written shape among them.
pub proof fn lemma_settings_lenient(fields: Seq<(Seq<char>, Json)>)
    requires
        match obj_get(fields, "ollama_model"@) { None => true, Some(v) => v is Str },
        match obj_get(fields, "voice_id"@) { None => true, Some(v) => v is Str },
        match obj_get(fields, "voice_enabled"@) { None => true, Some(v) => v is Bool },
        match obj_get(fields, "vrm_model_path"@) { None => true, Some(v) => v is Str || v is Null },
        match obj_get(fields, "nsfw_enabled"@) { None => true, Some(v) => v is Bool },
        match obj_get(fields, "userName"@) { None => true, Some(v) => v is Str || v is Null },
        match obj_get(fields, "memories"@) { None => true, Some(v) => v is Str || v is Null },
        match obj_get(fields, "selectedOutfit"@) { None => true, Some(v) => v is Str || v is Null },
        match obj_get(fields, "selectedHair"@) { None => true, Some(v) => v is Str || v is Null },
        match obj_get(fields, "selectedStage"@) { None => true, Some(v) => v is Str || v is Null },
        match obj_get(fields, "selectedHairColor"@) { None => true, Some(v) => v is Str || v is Null },
        match obj_get(fields, "captionsEnabled"@) { None => true, Some(v) => v is Bool || v is Null },
        match obj_get(fields, "affectionData"@) {
            None => true,
            Some(v) => v is Null || affection_of_json(v) is Some,
        },
    ensures
        settings_of_json(Json::Obj(fields)) is Some,
{
}

/// Law: reading the document tree written for a settings record back,
/// leniently, yields that record unchanged.
pub proof fn lemma_settings_round_trip(s: SettingsModel)
    ensures
        settings_of_json(settings_json(s)) == Some(s),
{
    reveal_strlit("ollama_model");
    reveal_strlit("voice_id");
    reveal_strlit("voice_enabled");
    reveal_strlit("vrm_model_path");
    reveal_strlit("nsfw_enabled");
    reveal_strlit("userName");
    reveal_strlit("memories");
    reveal_strlit("selectedOutfit");
    reveal_strlit("selectedHair");
    reveal_strlit("selectedStage");
    reveal_strlit("selectedHairColor");
    reveal_strlit("captionsEnabled");
    reveal_strlit("affectionData");
    assert("ollama_model"@.len() == 12);
    assert("voice_id"@.len() == 8);
    assert("voice_enabled"@.len() == 13);
    assert("vrm_model_path"@.len() == 14);
    assert("nsfw_enabled"@.len() == 12);
    assert("userName"@.len() == 8);
    assert("memories"@.len() == 8);
    assert("selectedOutfit"@.len() == 14);
    assert("selectedHair"@.len() == 12);
    assert("selectedStage"@.len() == 13);
    assert("selectedHairColor"@.len() == 17);
    assert("captionsEnabled"@.len() == 15);
    assert("affectionData"@.len() == 13);
    let fs = seq![
        ("ollama_model"@, Json::Str(s.ollama_model)),
        ("voice_id"@, Json::Str(s.voice_id)),
        ("voice_enabled"@, Json::Bool(s.voice_enabled)),
        ("vrm_model_path"@, opt_str_json(s.vrm_model_path)),
        ("nsfw_enabled"@, Json::Bool(s.nsfw_enabled)),
        ("userName"@, opt_str_json(s.user_name)),
        ("memories"@, opt_str_json(s.memories)),
        ("selectedOutfit"@, opt_str_json(s.selected_outfit)),
        ("selectedHair"@, opt_str_json(s.selected_hair)),
        ("selectedStage"@, opt_str_json(s.selected_stage)),
        ("selectedHairColor"@, opt_str_json(s.selected_hair_color)),
        ("captionsEnabled"@, opt_bool_json(s.captions_enabled)),
        ("affectionData"@, opt_affection_json(s.affection_data)),
    ];
    assert(fs.len() == 13);
    assert("ollama_model"@[0] == 'o' && "nsfw_enabled"@[0] == 'n' && "selectedHair"@[0] == 's');
    assert("voice_id"@[0] == 'v' && "userName"@[0] == 'u' && "memories"@[0] == 'm');
    assert("voice_enabled"@[0] == 'v' && "selectedStage"@[0] == 's' && "affectionData"@[0] == 'a');
    assert("vrm_model_path"@[0] == 'v' && "selectedOutfit"@[0] == 's');
    assert("ollama_model"@ != "nsfw_enabled"@ && "ollama_model"@ != "selectedHair"@
        && "nsfw_enabled"@ != "selectedHair"@);
    assert("voice_id"@ != "userName"@ && "voice_id"@ != "memories"@
        && "userName"@ != "memories"@);
    assert("voice_enabled"@ != "selectedStage"@ && "voice_enabled"@ != "affectionData"@
        && "selectedStage"@ != "affectionData"@);
    assert("vrm_model_path"@ != "selectedOutfit"@);
    lemma_obj_get_at(fs, "ollama_model"@, 0);
    lemma_obj_get_at(fs, "voice_id"@, 1);
    lemma_obj_get_at(fs, "voice_enabled"@, 2);
    lemma_obj_get_at(fs, "vrm_model_path"@, 3);
    lemma_obj_get_at(fs, "nsfw_enabled"@, 4);
    lemma_obj_get_at(fs, "userName"@, 5);
    lemma_obj_get_at(fs, "memories"@, 6);
    lemma_obj_get_at(fs, "selectedOutfit"@, 7);
    lemma_obj_get_at(fs, "selectedHair"@, 8);
    lemma_obj_get_at(fs, "selectedStage"@, 9);
    lemma_obj_get_at(fs, "selectedHairColor"@, 10);
    lemma_obj_get_at(fs, "captionsEnabled"@, 11);
    lemma_obj_get_at(fs, "affectionData"@, 12);
    match s.affection_data {
        Some(a) => lemma_affection_round_trip(a),
        None => (),
    }
    assert(settings_of_json(settings_json(s)) == Some(s));
}

/// Law: the empty document loads to the all-default settings record.
pub proof fn lemma_settings_empty_default()
    ensures
        settings_of_json(Json::Obj(Seq::empty())) == Some(settings_default()),
{
}

} // verus!

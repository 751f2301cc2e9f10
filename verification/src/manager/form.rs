//! The form in which a space is created.
use crate::manager::request::{Request, RequestView};
use crate::manager::rules::{
    color_error, color_problem, eligibility, id_error, id_problem, passphrase_error,
    passphrase_problem, profile_eligibility, slug_error, slug_problem, EligibilityView,
    ProfileEligibility, PRESET_COLORS,
};
use crate::manager::view::{row_views, ProfileRow, ProfileRowView, SpaceRow, SpaceRowView};
use crate::text::{chars_of, chars_trim, opt_text, push_text, string_of, texts, trim};
use vstd::prelude::*;

verus! {

/// What the fields of the form hold.
pub struct FormInput {
    pub id: String,
    pub label: String,
    /// The colour that was typed; it counts unless it is blank.
    pub manual_color: String,
    /// The colour that was picked.
    pub preset_color: Option<String>,
    pub seed: String,
    pub encrypt: bool,
    pub passphrase: String,
    pub confirm: String,
}

#[verifier::ext_equal]
pub struct InputView {
    pub id: Seq<char>,
    pub label: Seq<char>,
    pub manual_color: Seq<char>,
    pub preset_color: Option<Seq<char>>,
    pub seed: Seq<char>,
    pub encrypt: bool,
    pub passphrase: Seq<char>,
    pub confirm: Seq<char>,
}

impl View for FormInput {
    type V = InputView;

    open spec fn view(&self) -> InputView {
        InputView {
            id: self.id@,
            label: self.label@,
            manual_color: self.manual_color@,
            preset_color: opt_text(self.preset_color),
            seed: self.seed@,
            encrypt: self.encrypt,
            passphrase: self.passphrase@,
            confirm: self.confirm@,
        }
    }
}

/// The colour of the form: what was typed, else what was picked, else the first preset.
pub open spec fn chosen_color(input: InputView) -> Seq<char> {
    if trim(input.manual_color).len() > 0 {
        trim(input.manual_color)
    } else {
        match input.preset_color {
            Some(c) => c,
            None => PRESET_COLORS@[0]@,
        }
    }
}

pub fn effective_color(input: &FormInput) -> (r: String)
    ensures
        r@ == chosen_color(input@),
{
    let manual = chars_trim(&chars_of(input.manual_color.as_str()));
    if manual.len() > 0 {
        return string_of(&manual);
    }
    match &input.preset_color {
        Some(c) => c.clone(),
        None => PRESET_COLORS[0].to_owned(),
    }
}

/// What the form says of its fields.
pub struct FormCheck {
    pub profile_hint: Option<String>,
    pub can_build: bool,
    pub id_error: Option<String>,
    pub label_error: Option<String>,
    pub color_error: Option<String>,
    pub passphrase_error: Option<String>,
    pub preview_title: String,
    pub preview_subtitle: String,
    pub can_create: bool,
}

#[verifier::ext_equal]
pub struct CheckView {
    pub profile_hint: Option<Seq<char>>,
    pub can_build: bool,
    pub id_error: Option<Seq<char>>,
    pub label_error: Option<Seq<char>>,
    pub color_error: Option<Seq<char>>,
    pub passphrase_error: Option<Seq<char>>,
    pub preview_title: Seq<char>,
    pub preview_subtitle: Seq<char>,
    pub can_create: bool,
}

impl View for FormCheck {
    type V = CheckView;

    open spec fn view(&self) -> CheckView {
        CheckView {
            profile_hint: opt_text(self.profile_hint),
            can_build: self.can_build,
            id_error: opt_text(self.id_error),
            label_error: opt_text(self.label_error),
            color_error: opt_text(self.color_error),
            passphrase_error: opt_text(self.passphrase_error),
            preview_title: self.preview_title@,
            preview_subtitle: self.preview_subtitle@,
            can_create: self.can_create,
        }
    }
}

/// What is said of the profile of the form.
pub open spec fn profile_hint(profile: Option<ProfileRowView>) -> Option<Seq<char>> {
    match profile {
        None => Some("нет доступных профилей"@),
        Some(row) => match eligibility(row) {
            EligibilityView::Ready => None,
            EligibilityView::NoTemplate => Some("образ этого профиля ещё не собран."@),
            EligibilityView::ManifestBroken(e) => Some("манифест профиля не читается: "@ + e),
        },
    }
}

pub open spec fn needs_build(profile: Option<ProfileRowView>) -> bool {
    profile matches Some(row) && eligibility(row) is NoTemplate
}

/// Encryption wants a passphrase, and wants it twice.
pub open spec fn encryption_problem(input: InputView) -> Option<Seq<char>> {
    if !input.encrypt {
        None
    } else if input.passphrase.len() == 0 {
        Some("Введите пароль для шифрования."@)
    } else {
        passphrase_problem(input.passphrase, input.confirm)
    }
}

pub open spec fn ids_of(spaces: Seq<SpaceRowView>) -> Seq<Seq<char>> {
    spaces.map_values(|s: SpaceRowView| s.id)
}

/// What the form says of its fields, beside the spaces that there are.
pub open spec fn checked(
    input: InputView,
    profile: Option<ProfileRowView>,
    spaces: Seq<SpaceRowView>,
) -> CheckView {
    CheckView {
        profile_hint: profile_hint(profile),
        can_build: needs_build(profile),
        id_error: id_problem(input.id, ids_of(spaces)),
        label_error: slug_problem(input.label),
        color_error: color_problem(chosen_color(input)),
        passphrase_error: encryption_problem(input),
        preview_title: if input.id.len() == 0 {
            "Ваш новый спейс"@
        } else {
            input.id
        },
        preview_subtitle: (match profile {
            Some(row) => row.profile,
            None => "Выберите профиль"@,
        }) + " · метка "@ + input.label + " · "@ + (if input.encrypt {
            "С шифрованием"@
        } else {
            "Без шифрования"@
        }),
        can_create: profile_hint(profile) is None && id_problem(input.id, ids_of(spaces)) is None
            && slug_problem(input.label) is None && color_problem(chosen_color(input)) is None
            && encryption_problem(input) is None,
    }
}

pub open spec fn opt_profile(profile: Option<&ProfileRow>) -> Option<ProfileRowView> {
    match profile {
        Some(p) => Some(p@),
        None => None,
    }
}

fn hint_of(profile: Option<&ProfileRow>) -> (r: Option<String>)
    ensures
        opt_text(r) == profile_hint(opt_profile(profile)),
{
    match profile {
        None => Some("нет доступных профилей".to_owned()),
        Some(row) => match profile_eligibility(row) {
            ProfileEligibility::Ready => None,
            ProfileEligibility::NoTemplate => Some(
                "образ этого профиля ещё не собран.".to_owned(),
            ),
            ProfileEligibility::ManifestBroken(e) => Some(
                "манифест профиля не читается: ".to_owned().concat(e.as_str()),
            ),
        },
    }
}

fn space_ids(spaces: &Vec<SpaceRow>) -> (r: Vec<String>)
    ensures
        texts(r@) == ids_of(row_views(spaces@)),
{
    let ghost all = ids_of(row_views(spaces@));
    let mut out: Vec<String> = Vec::new();
    assert(texts(out@) =~= all.take(0));
    for i in 0..spaces.len()
        invariant
            all == ids_of(row_views(spaces@)),
            texts(out@) == all.take(i as int),
    {
        push_text(&mut out, spaces[i].id.as_str());
        assert(texts(out@) =~= all.take(i + 1));
    }
    assert(all.take(spaces@.len() as int) =~= all);
    out
}

/// Looks at the fields of the form.
pub fn revalidate(
    input: &FormInput,
    profile: Option<&ProfileRow>,
    spaces: &Vec<SpaceRow>,
) -> (r: FormCheck)
    ensures
        r@ == checked(input@, opt_profile(profile), row_views(spaces@)),
{
    let hint = hint_of(profile);
    let can_build = match profile {
        Some(row) => row.manifest_ok && !row.template,
        None => false,
    };
    let id_problem = id_error(input.id.as_str(), &space_ids(spaces));
    let label_problem = slug_error(input.label.as_str());
    let color_problem = color_error(effective_color(input).as_str());
    let passphrase_problem = if input.encrypt {
        if chars_of(input.passphrase.as_str()).len() == 0 {
            Some("Введите пароль для шифрования.".to_owned())
        } else {
            passphrase_error(input.passphrase.as_str(), input.confirm.as_str())
        }
    } else {
        None
    };
    let title = if chars_of(input.id.as_str()).len() == 0 {
        "Ваш новый спейс".to_owned()
    } else {
        input.id.clone()
    };
    let name = match profile {
        Some(row) => row.profile.clone(),
        None => "Выберите профиль".to_owned(),
    };
    let encryption = if input.encrypt {
        "С шифрованием"
    } else {
        "Без шифрования"
    };
    let can_create = hint.is_none() && id_problem.is_none() && label_problem.is_none()
        && color_problem.is_none() && passphrase_problem.is_none();
    FormCheck {
        profile_hint: hint,
        can_build,
        id_error: id_problem,
        label_error: label_problem,
        color_error: color_problem,
        passphrase_error: passphrase_problem,
        preview_title: title,
        preview_subtitle: name.concat(" · метка ").concat(input.label.as_str()).concat(
            " · ",
        ).concat(encryption),
        can_create,
    }
}

pub open spec fn nonempty(s: Seq<char>) -> Option<Seq<char>> {
    if s.len() == 0 {
        None
    } else {
        Some(s)
    }
}

/// The request of a form. A seed and a passphrase are named only if there are any.
pub open spec fn creation(input: InputView, profile: Seq<char>) -> RequestView {
    RequestView::Create {
        space: input.id,
        profile,
        label: input.label,
        color: chosen_color(input),
        seed: nonempty(trim(input.seed)),
        passphrase: if input.encrypt {
            nonempty(input.passphrase)
        } else {
            None
        },
    }
}

pub fn creation_request(input: &FormInput, profile: &str) -> (r: Request)
    ensures
        r@ == creation(input@, profile@),
{
    let seed = chars_trim(&chars_of(input.seed.as_str()));
    let seed = if seed.len() == 0 {
        None
    } else {
        Some(string_of(&seed))
    };
    let passphrase = if input.encrypt && chars_of(input.passphrase.as_str()).len() > 0 {
        Some(input.passphrase.clone())
    } else {
        None
    };
    Request::Create {
        space: input.id.clone(),
        profile: profile.to_owned(),
        label: input.label.clone(),
        color: effective_color(input),
        seed,
        passphrase,
    }
}

/// A form that can be sent asks for encryption exactly if it carries a passphrase: that a space
/// is encrypted is never decided in silence, and no passphrase leaves a form that does not
/// encrypt.
pub proof fn encryption_is_never_silent(
    input: InputView,
    profile: ProfileRowView,
    spaces: Seq<SpaceRowView>,
)
    requires
        checked(input, Some(profile), spaces).can_create,
    ensures
        input.encrypt <==> creation(input, profile.profile)->Create_passphrase is Some,
        input.encrypt ==> input.passphrase == input.confirm,
        crate::ids::is_slug(input.id),
        crate::ids::is_slug(input.label),
        crate::ids::is_color(chosen_color(input)),
        !ids_of(spaces).contains(input.id),
        profile.manifest_ok && profile.template,
{
}

/// A form asks for what stands in its fields. A colour that was typed counts before one that was
/// picked; blanks round a colour or a directory do not count; a passphrase goes out only where
/// encryption is asked for.
pub proof fn a_form_asks_for_what_was_entered(input: InputView, profile: Seq<char>)
    ensures
        creation(input, profile) matches RequestView::Create {
            space,
            profile: asked,
            label,
            color,
            seed,
            passphrase,
        } && {
            &&& space == input.id
            &&& asked == profile
            &&& label == input.label
            &&& trim(input.manual_color).len() > 0 ==> color == trim(input.manual_color)
            &&& trim(input.manual_color).len() == 0 && input.preset_color is Some ==> color
                == input.preset_color->0
            &&& trim(input.manual_color).len() == 0 && input.preset_color is None ==> color
                == "#e03131"@
            &&& trim(input.seed).len() > 0 ==> seed == Some(trim(input.seed))
            &&& trim(input.seed).len() == 0 ==> seed is None
            &&& input.encrypt && input.passphrase.len() > 0 ==> passphrase == Some(
                input.passphrase,
            )
            &&& !input.encrypt || input.passphrase.len() == 0 ==> passphrase is None
        },
{
}

/// The preview of a form shows the space that it would create.
pub proof fn a_form_shows_what_it_would_create(
    input: InputView,
    profile: Option<ProfileRowView>,
    spaces: Seq<SpaceRowView>,
)
    ensures
        ({
            let r = checked(input, profile, spaces);
            &&& input.id.len() > 0 ==> r.preview_title == input.id
            &&& input.id.len() == 0 ==> r.preview_title == "Ваш новый спейс"@
            &&& (profile matches Some(row) ==> r.preview_subtitle == row.profile + " · метка "@
                + input.label + " · "@ + (if input.encrypt {
                "С шифрованием"@
            } else {
                "Без шифрования"@
            }))
            &&& (profile is None ==> r.preview_subtitle == "Выберите профиль"@ + " · метка "@
                + input.label + " · "@ + (if input.encrypt {
                "С шифрованием"@
            } else {
                "Без шифрования"@
            }))
        }),
{
}

/// A form can be sent if nothing is wrong with any field, and what is wrong stands at its field:
/// at the profile that there is none, that its image is not built or that its manifest cannot be
/// read; at the passphrase that there is none. An image can be built exactly where it is missing.
pub proof fn a_form_tells_what_is_wrong(
    input: InputView,
    profile: Option<ProfileRowView>,
    spaces: Seq<SpaceRowView>,
)
    ensures
        ({
            let r = checked(input, profile, spaces);
            let ready = profile is Some && profile->0.manifest_ok && profile->0.template;
            &&& r.can_create <==> r.profile_hint is None && r.id_error is None && r.label_error
                is None && r.color_error is None && r.passphrase_error is None
            &&& r.profile_hint is None <==> ready
            &&& profile is None ==> r.profile_hint == Some("нет доступных профилей"@)
            &&& profile is Some && profile->0.manifest_ok && !profile->0.template ==> {
                &&& r.profile_hint == Some("образ этого профиля ещё не собран."@)
                &&& r.can_build
            }
            &&& r.can_build ==> profile is Some && profile->0.manifest_ok && !profile->0.template
            &&& input.encrypt && input.passphrase.len() == 0 ==> r.passphrase_error == Some(
                "Введите пароль для шифрования."@,
            )
            &&& input.encrypt && input.passphrase.len() > 0 ==> (r.passphrase_error is None
                <==> input.passphrase == input.confirm)
            &&& !input.encrypt ==> r.passphrase_error is None
        }),
{
}

} // verus!

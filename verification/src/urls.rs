//! Where things are fetched from, and what the page's query string asks for.
//!
//! Two bases matter. The *app* base is the directory the page is served from;
//! workers and vendored modules lie under it. The *media* base holds models and
//! bundles, and may be another server. Workers run from a `blob:` URL that has
//! neither a directory nor a query, so the main thread works all of this out.

use vstd::prelude::*;

use crate::protocol::SceneChoice;
use crate::text::{
    directory, directory_of, law_directory_ends_at_the_last_slash,
    law_only_trailing_slashes_are_trimmed, occurs_at, same_text, trim_end_slashes, trimmed,
};

verus! {

/// The app base: the page's origin and the directory part of its path.
pub fn app_base(origin: &str, path: &str) -> (base: String)
    ensures
        base@ == origin@ + directory(path@),
{
    let mut base: String = origin.to_string();
    base.append(directory_of(path));
    base
}

/// The media base. A `media` query parameter names it; failing that, the base
/// the build was given; failing both, it is the app base.
pub fn page_base(media: Option<&str>, built_in: Option<&str>, app_base: String) -> (base: String)
    ensures
        media matches Some(m) ==> base@ == trimmed(m@),
        media is None && built_in is Some ==> base@ == trimmed(built_in->0@),
        media is None && built_in is None ==> base@ == app_base@,
{
    match media {
        Some(m) => trim_end_slashes(m).to_string(),
        None => match built_in {
            Some(b) => trim_end_slashes(b).to_string(),
            None => app_base,
        },
    }
}

/// A path under a base, however many slashes the base ends in.
pub open spec fn under(base: Seq<char>, path: Seq<char>) -> Seq<char> {
    trimmed(base) + "/"@ + path
}

/// A path under a base, however many slashes the base ends in.
pub fn join(base: &str, path: &str) -> (url: String)
    ensures
        url@ == under(base@, path@),
{
    let mut url: String = trim_end_slashes(base).to_string();
    url.append("/");
    url.append(path);
    url
}

/// A base with a slash at its end is the same base without it.
pub proof fn law_trailing_slashes_do_not_matter(base: Seq<char>, path: Seq<char>)
    ensures
        under(base + "/"@, path) == under(base, path),
        under(trimmed(base), path) == under(base, path),
{
    reveal_strlit("/");
    assert((base + "/"@).drop_last() =~= base);
    lemma_trimmed_twice(base);
}

proof fn lemma_trimmed_twice(s: Seq<char>)
    ensures
        trimmed(trimmed(s)) == trimmed(s),
    decreases s.len(),
{
    if s.len() > 0 && s.last() == '/' {
        lemma_trimmed_twice(s.drop_last());
    }
}

/// The files under the app base.
pub struct AppUrls {
    pub basis_worker: String,
    pub basis_transcoder: String,
    pub mujoco_worker: String,
    pub mujoco_js: String,
    pub mujoco_wasm: String,
}

impl AppUrls {
    /// The files of an app that is served from `app_base`.
    pub fn new(app_base: &str) -> (urls: AppUrls)
        ensures
            urls.basis_worker@ == under(app_base@, "workers/basis-worker.js"@),
            urls.basis_transcoder@ == under(app_base@, "vendor/basis/basis_transcoder.js"@),
            urls.mujoco_worker@ == under(app_base@, "workers/mujoco-worker.js"@),
            urls.mujoco_js@ == under(app_base@, "vendor/mujoco/mujoco.js"@),
            urls.mujoco_wasm@ == under(app_base@, "vendor/mujoco/mujoco.wasm"@),
    {
        AppUrls {
            basis_worker: join(app_base, "workers/basis-worker.js"),
            basis_transcoder: join(app_base, "vendor/basis/basis_transcoder.js"),
            mujoco_worker: join(app_base, "workers/mujoco-worker.js"),
            mujoco_js: join(app_base, "vendor/mujoco/mujoco.js"),
            mujoco_wasm: join(app_base, "vendor/mujoco/mujoco.wasm"),
        }
    }
}

/// The model file of a scene, under the media base.
pub fn model_url(media_base: &str, scene: SceneChoice) -> (url: String)
    ensures
        url@ == under(media_base@, scene.model()),
{
    join(media_base, scene.model_path())
}

/// The bundle directory that a payload without one stands for.
pub open spec fn bundle_named(dir: Option<&str>) -> Seq<char> {
    match dir {
        Some(d) => d@,
        None => "bundle"@,
    }
}

/// The player bundle that the render worker loads.
pub struct BundleUrls {
    /// The bundle's directory; its assets are fetched from under it.
    pub base: String,
    /// The scene document in it.
    pub scene: String,
}

impl BundleUrls {
    /// The bundle in directory `dir` of the media base, or in `bundle` when the
    /// payload names none.
    pub fn new(media_base: &str, dir: Option<&str>) -> (urls: BundleUrls)
        ensures
            urls.base@ == under(media_base@, bundle_named(dir)),
            urls.scene@ == urls.base@ + "/scene.toml"@,
    {
        let base: String = join(
            media_base,
            match dir {
                Some(d) => d,
                None => "bundle",
            },
        );
        let mut scene: String = base.clone();
        scene.append("/scene.toml");
        BundleUrls { base, scene }
    }
}

/// The debug overlays that a page asks for.
#[derive(Clone, Copy, Debug, PartialEq, Eq, Structural)]
pub struct OverlayToggles {
    pub contacts: bool,
    pub joints: bool,
    pub inertia: bool,
}

/// A parameter called `name` stands at `at` in a query string. Its name begins
/// after the leading `?` or after a `&`, and ends at a `&`, at a `=` or with the
/// query.
pub open spec fn parameter_at(search: Seq<char>, name: Seq<char>, at: int) -> bool {
    &&& occurs_at(search, name, at)
    &&& at > 0
    &&& search[at - 1] == '&' || (at == 1 && search[0] == '?')
    &&& {
        let end = at + name.len();
        end == search.len() || search[end] == '&' || search[end] == '='
    }
}

/// The query string has a parameter of exactly that name.
pub open spec fn asks_for(search: Seq<char>, name: Seq<char>) -> bool {
    exists|at: int| parameter_at(search, name, at)
}

/// Whether the query string has a parameter of exactly that name.
pub fn has_parameter(search: &str, name: &str) -> (yes: bool)
    ensures
        yes == asks_for(search@, name@),
{
    let len: usize = search.unicode_len();
    let width: usize = name.unicode_len();
    if width >= len {
        return false;
    }
    let mut at: usize = len - width;
    while at > 0
        invariant
            len == search@.len(),
            width == name@.len(),
            at + width <= len,
            forall|i: int| at < i ==> !parameter_at(search@, name@, i),
        decreases at,
    {
        let before: char = search.get_char(at - 1);
        let end: usize = at + width;
        if (before == '&' || (at == 1 && before == '?')) && (end == len || search.get_char(end)
            == '&' || search.get_char(end) == '=') && same_text(
            search.substring_char(at, end),
            name,
        ) {
            assert(parameter_at(search@, name@, at as int));
            return true;
        }
        at = at - 1;
    }
    false
}

impl OverlayToggles {
    /// Read the overlays off the page's query string. Each is asked for by a
    /// parameter of its own.
    pub fn from_search(search: &str) -> (toggles: OverlayToggles)
        ensures
            toggles.contacts == asks_for(search@, "contacts"@),
            toggles.joints == asks_for(search@, "joints"@),
            toggles.inertia == asks_for(search@, "inertia"@),
    {
        OverlayToggles {
            contacts: has_parameter(search, "contacts"),
            joints: has_parameter(search, "joints"),
            inertia: has_parameter(search, "inertia"),
        }
    }
}

impl Default for OverlayToggles {
    /// No overlay.
    fn default() -> (toggles: OverlayToggles)
        ensures
            toggles == (OverlayToggles { contacts: false, joints: false, inertia: false }),
    {
        OverlayToggles { contacts: false, joints: false, inertia: false }
    }
}

/// Parameters stack: one more leaves every other as it was asked for, and is
/// itself asked for as it would be alone.
pub proof fn law_parameters_stack(search: Seq<char>, more: Seq<char>, name: Seq<char>)
    ensures
        asks_for(search, name) ==> asks_for(search + "&"@ + more, name),
        asks_for("?"@ + more, name) ==> asks_for(search + "&"@ + more, name),
{
    reveal_strlit("&");
    reveal_strlit("?");
    let both = search + "&"@ + more;
    if asks_for(search, name) {
        let at = choose|at: int| parameter_at(search, name, at);
        assert(both.subrange(at, at + name.len()) =~= search.subrange(at, at + name.len()));
        assert(parameter_at(both, name, at));
    }
    if asks_for("?"@ + more, name) {
        let alone = "?"@ + more;
        let at = choose|at: int| parameter_at(alone, name, at);
        let to = search.len() + at;
        assert(both.subrange(to, to + name.len()) =~= alone.subrange(at, at + name.len()));
        assert(both[to - 1] == (if at == 1 {
            '&'
        } else {
            alone[at - 1]
        }));
        assert(parameter_at(both, name, to));
    }
}

/// Parameters are opt-in: an empty query asks for nothing, and a query of one
/// parameter asks for that one alone, whatever stands in its value.
pub proof fn law_parameters_are_opt_in(key: Seq<char>, value: Seq<char>, name: Seq<char>)
    requires
        !key.contains('&'),
        !key.contains('='),
        !value.contains('&'),
        !name.contains('='),
    ensures
        !asks_for(Seq::<char>::empty(), name),
        asks_for("?"@ + key + "="@ + value, name) <==> key == name,
        asks_for("?"@ + key, name) <==> key == name,
{
    reveal_strlit("?");
    reveal_strlit("=");
    let bare = "?"@ + key;
    let full = "?"@ + key + "="@ + value;
    assert(full.subrange(1, 1int + key.len()) =~= key);
    assert(bare.subrange(1, 1int + key.len()) =~= key);
    if key == name {
        assert(parameter_at(full, name, 1));
        assert(parameter_at(bare, name, 1));
    }
    if asks_for(full, name) {
        let at = choose|at: int| parameter_at(full, name, at);
        assert(full[at - 1] != '&' || at == 1) by {
            if at > 1 {
                if at - 2 < key.len() {
                    assert(key.contains(key[at - 2]));
                } else if at - 2 > key.len() {
                    assert(value.contains(value[at - 3 - key.len()]));
                }
            }
        }
        lemma_name_ends(full, key, name);
    }
    if asks_for(bare, name) {
        let at = choose|at: int| parameter_at(bare, name, at);
        if at > 1 {
            assert(key.contains(key[at - 2]));
        }
        assert(at == 1);
        if name.len() < key.len() {
            assert(key.contains(key[name.len() as int]));
        }
        assert(name =~= key);
    }
}

proof fn lemma_name_ends(full: Seq<char>, key: Seq<char>, name: Seq<char>)
    requires
        full.len() > key.len() + 1,
        full.subrange(1, 1int + key.len()) == key,
        full[1int + key.len()] == '=',
        !key.contains('&'),
        !key.contains('='),
        !name.contains('='),
        parameter_at(full, name, 1),
    ensures
        name == key,
{
    if name.len() < key.len() {
        assert(key[name.len() as int] == full[1int + name.len()]);
        assert(key.contains(key[name.len() as int]));
    } else if name.len() > key.len() {
        assert(name[key.len() as int] == full[1int + key.len()]);
        assert(name.contains(name[key.len() as int]));
    }
    assert(name =~= key);
}

/// `kept` is `s` with the slashes at its end cut off, all of them and nothing else.
pub open spec fn cut_before_slashes(s: Seq<char>, kept: Seq<char>) -> bool {
    &&& kept.len() <= s.len()
    &&& forall|i: int| 0 <= i < kept.len() ==> #[trigger] kept[i] == s[i]
    &&& kept.len() > 0 ==> kept.last() != '/'
    &&& forall|i: int| kept.len() <= i < s.len() ==> #[trigger] s[i] == '/'
}

/// `url` is the base without the slashes at its end, one slash, and the path.
pub open spec fn lies_under(url: Seq<char>, base: Seq<char>, path: Seq<char>) -> bool {
    let n = url.len() - path.len() - 1;
    &&& n >= 0
    &&& cut_before_slashes(base, url.take(n))
    &&& url[n] == '/'
    &&& url.skip(n + 1) == path
}

proof fn lemma_under_lies(base: Seq<char>, path: Seq<char>)
    ensures
        lies_under(under(base, path), base, path),
{
    reveal_strlit("/");
    law_only_trailing_slashes_are_trimmed(base);
    let url = under(base, path);
    let n = url.len() - path.len() - 1;
    assert(url.take(n) =~= trimmed(base));
    assert(url.skip(n + 1) =~= path);
}

/// The app base is the origin, whole, and the page's path up to its last slash.
pub proof fn law_app_base_is_the_pages_directory(origin: &str, path: &str, base: String)
    requires
        call_ensures(app_base, (origin, path), base),
    ensures
        ({
            let dir = base@.skip(origin@.len() as int);
            &&& base@ == origin@ + dir
            &&& !path@.contains('/') ==> dir.len() == 0
            &&& path@.contains('/') ==> dir.len() < path@.len() && path@[dir.len() as int] == '/'
            &&& forall|i: int| 0 <= i < dir.len() ==> #[trigger] dir[i] == path@[i]
            &&& path@.contains('/') ==> forall|i: int|
                dir.len() < i < path@.len() ==> #[trigger] path@[i] != '/'
        }),
{
    law_directory_ends_at_the_last_slash(path@);
    assert(base@.skip(origin@.len() as int) =~= directory(path@));
}

/// The media base is what the page asks for, else what the build was given, with
/// nothing but slashes cut off its end; else it is the app base as it stands.
pub proof fn law_media_base_is_what_was_named(
    media: Option<&str>,
    built_in: Option<&str>,
    app_base: String,
    base: String,
)
    requires
        call_ensures(page_base, (media, built_in, app_base), base),
    ensures
        media matches Some(m) ==> cut_before_slashes(m@, base@),
        media is None && built_in is Some ==> cut_before_slashes(built_in->0@, base@),
        media is None && built_in is None ==> base@ == app_base@,
{
    if let Some(m) = media {
        law_only_trailing_slashes_are_trimmed(m@);
    } else if let Some(b) = built_in {
        law_only_trailing_slashes_are_trimmed(b@);
    }
}

/// A path is joined to a base with one slash; neither loses a character, but for the
/// slashes at the base's end.
pub proof fn law_join_puts_one_slash_between(base: &str, path: &str, url: String)
    requires
        call_ensures(join, (base, path), url),
    ensures
        lies_under(url@, base@, path@),
{
    lemma_under_lies(base@, path@);
}

/// Every file of the app lies under the app base.
pub proof fn law_app_files_lie_under_the_app_base(app_base: &str, urls: AppUrls)
    requires
        call_ensures(AppUrls::new, (app_base,), urls),
    ensures
        lies_under(urls.basis_worker@, app_base@, "workers/basis-worker.js"@),
        lies_under(urls.basis_transcoder@, app_base@, "vendor/basis/basis_transcoder.js"@),
        lies_under(urls.mujoco_worker@, app_base@, "workers/mujoco-worker.js"@),
        lies_under(urls.mujoco_js@, app_base@, "vendor/mujoco/mujoco.js"@),
        lies_under(urls.mujoco_wasm@, app_base@, "vendor/mujoco/mujoco.wasm"@),
{
    lemma_under_lies(app_base@, "workers/basis-worker.js"@);
    lemma_under_lies(app_base@, "vendor/basis/basis_transcoder.js"@);
    lemma_under_lies(app_base@, "workers/mujoco-worker.js"@);
    lemma_under_lies(app_base@, "vendor/mujoco/mujoco.js"@);
    lemma_under_lies(app_base@, "vendor/mujoco/mujoco.wasm"@);
}

/// A scene's model lies under the media base.
pub proof fn law_model_lies_under_the_media_base(media_base: &str, scene: SceneChoice, url: String)
    requires
        call_ensures(model_url, (media_base, scene), url),
    ensures
        scene is Humanoid ==> lies_under(url@, media_base@, "mujoco/humanoid.xml"@),
        scene is Flag ==> lies_under(url@, media_base@, "mujoco/flag.xml"@),
{
    lemma_under_lies(media_base@, scene.model());
}

/// A bundle lies under the media base, in the directory that the payload names or else
/// in `bundle`, and its scene document lies in it.
pub proof fn law_bundle_lies_under_the_media_base(
    media_base: &str,
    dir: Option<&str>,
    urls: BundleUrls,
)
    requires
        call_ensures(BundleUrls::new, (media_base, dir), urls),
    ensures
        dir matches Some(d) ==> lies_under(urls.base@, media_base@, d@),
        dir is None ==> lies_under(urls.base@, media_base@, "bundle"@),
        urls.scene@ == urls.base@ + "/scene.toml"@,
{
    lemma_under_lies(media_base@, bundle_named(dir));
}

/// One parameter of a query, `key` or `key=value`, has this name.
pub open spec fn is_named(parameter: Seq<char>, name: Seq<char>) -> bool {
    ||| parameter == name
    ||| parameter.len() > name.len() && parameter.take(name.len() as int) == name && parameter[
    name.len() as int] == '='
}

/// Each parameter counts, and nothing else does. One more asks for its own name and
/// leaves the rest as it was, however long the query is; the first stands behind the
/// `?`; and what stands before any `?` or `&` is no parameter.
pub proof fn law_each_parameter_counts(search: Seq<char>, more: Seq<char>, name: Seq<char>)
    requires
        !more.contains('&'),
        !name.contains('&'),
    ensures
        asks_for(search + "&"@ + more, name) <==> asks_for(search, name) || is_named(more, name),
        asks_for("?"@ + more, name) <==> is_named(more, name),
        !search.contains('&') && (search.len() > 0 ==> search[0] != '?') ==> !asks_for(
            search,
            name,
        ),
{
    reveal_strlit("&");
    reveal_strlit("?");
    let both = search + "&"@ + more;
    law_parameters_stack(search, more, name);
    lemma_last_parameter(search, '&', more, name);
    assert(search + seq!['&'] + more =~= both);
    assert(Seq::<char>::empty() + seq!['?'] + more =~= "?"@ + more);
    lemma_last_parameter(Seq::empty(), '?', more, name);
    assert(!asks_for(Seq::empty(), name));
    if !search.contains('&') && (search.len() > 0 ==> search[0] != '?') && asks_for(search, name) {
        let at = choose|at: int| parameter_at(search, name, at);
        assert(search.contains(search[at - 1]));
    }
}

proof fn lemma_last_parameter(search: Seq<char>, mark: char, more: Seq<char>, name: Seq<char>)
    requires
        !more.contains('&'),
        !name.contains('&'),
        mark == '&' || (mark == '?' && search.len() == 0),
    ensures
        is_named(more, name) ==> asks_for(search + seq![mark] + more, name),
        asks_for(search + seq![mark] + more, name) ==> asks_for(search, name) || is_named(
            more,
            name,
        ),
{
    let both = search + seq![mark] + more;
    let first = search.len() as int + 1;
    let width = name.len() as int;
    assert(both.skip(first) =~= more);
    if is_named(more, name) {
        assert(both.subrange(first, first + width) =~= more.take(width));
        assert(more.take(width) =~= name);
        if more.len() > width {
            assert(both[first + width] == more[width]);
        }
        assert(parameter_at(both, name, first));
    }
    if asks_for(both, name) {
        let at = choose|at: int| parameter_at(both, name, at);
        if at + width <= search.len() {
            assert(search.subrange(at, at + width) =~= both.subrange(at, at + width));
            assert(parameter_at(search, name, at));
        } else if at < first {
            let here = search.len() - at;
            assert(name[here] == both[search.len() as int]);
            assert(name.contains(name[here]));
        } else if at > first {
            assert(both[at - 1] == more[at - 1 - first]);
            assert(more.contains(more[at - 1 - first]));
        } else {
            assert(more.take(width) =~= both.subrange(at, at + width));
            if more.len() == width {
                assert(more.take(width) =~= more);
            } else {
                assert(both[first + width] == more[width]);
                assert(more.contains(more[width]));
            }
            assert(is_named(more, name));
        }
    }
}

/// [`has_parameter`] follows the query parameter by parameter, of whatever length.
pub proof fn law_has_parameter_follows_the_query(
    search: &str,
    longer: &str,
    more: Seq<char>,
    name: &str,
    before: bool,
    after: bool,
)
    requires
        call_ensures(has_parameter, (search, name), before),
        call_ensures(has_parameter, (longer, name), after),
        !more.contains('&'),
        !name@.contains('&'),
    ensures
        longer@ == search@ + "&"@ + more ==> (after <==> before || is_named(more, name@)),
        longer@ == "?"@ + more ==> (after <==> is_named(more, name@)),
        !search@.contains('&') && (search@.len() > 0 ==> search@[0] != '?') ==> !before,
{
    law_each_parameter_counts(search@, more, name@);
}

/// [`OverlayToggles::from_search`] turns each overlay on by its own parameter alone: one
/// more parameter turns on the overlay that it names and changes no other.
pub proof fn law_each_overlay_has_its_parameter(
    search: &str,
    longer: &str,
    more: Seq<char>,
    before: OverlayToggles,
    after: OverlayToggles,
)
    requires
        call_ensures(OverlayToggles::from_search, (search,), before),
        call_ensures(OverlayToggles::from_search, (longer,), after),
        !more.contains('&'),
    ensures
        longer@ == search@ + "&"@ + more ==> {
            &&& after.contacts <==> before.contacts || is_named(more, "contacts"@)
            &&& after.joints <==> before.joints || is_named(more, "joints"@)
            &&& after.inertia <==> before.inertia || is_named(more, "inertia"@)
        },
        longer@ == "?"@ + more ==> {
            &&& after.contacts <==> is_named(more, "contacts"@)
            &&& after.joints <==> is_named(more, "joints"@)
            &&& after.inertia <==> is_named(more, "inertia"@)
        },
        search@.len() == 0 ==> !before.contacts && !before.joints && !before.inertia,
{
    reveal_strlit("contacts");
    reveal_strlit("joints");
    reveal_strlit("inertia");
    law_each_parameter_counts(search@, more, "contacts"@);
    law_each_parameter_counts(search@, more, "joints"@);
    law_each_parameter_counts(search@, more, "inertia"@);
}

} // verus!

//! The fixed catalogue of recommendations that issues point to by id.
use crate::text::string_views;
use vstd::prelude::*;

verus! {

/// A fix the report can point to: commands to run and where to read more.
#[derive(Debug, Clone)]
pub struct Recommendation {
    pub id: String,
    pub title: String,
    pub description: String,
    pub commands: Vec<String>,
    pub safe_to_run_unattended: bool,
    pub references: Vec<String>,
}

/// A recommendation as a mathematical value.
#[verifier::ext_equal]
pub struct RecommendationView {
    pub id: Seq<char>,
    pub title: Seq<char>,
    pub description: Seq<char>,
    pub commands: Seq<Seq<char>>,
    pub safe_to_run_unattended: bool,
    pub references: Seq<Seq<char>>,
}

impl View for Recommendation {
    type V = RecommendationView;

    open spec fn view(&self) -> RecommendationView {
        RecommendationView {
            id: self.id@,
            title: self.title@,
            description: self.description@,
            commands: string_views(self.commands@),
            safe_to_run_unattended: self.safe_to_run_unattended,
            references: string_views(self.references@),
        }
    }
}

pub open spec fn rec_views(v: Seq<Recommendation>) -> Seq<RecommendationView> {
    Seq::new(v.len(), |i: int| v[i]@)
}

/// The catalogue, `VR001` to `VR008` in order.
pub open spec fn catalogue_spec() -> Seq<RecommendationView> {
    seq![
        RecommendationView {
            id: "VR001"@,
            title: "Start an input-method daemon"@,
            description: "No IM daemon is running, but a Vietnamese engine is installed. Start either IBus or Fcitx5 (pick one — running both causes VD002)."@,
            commands: seq!["# Option A — IBus"@, "ibus-daemon -drx"@, "# Option B — Fcitx5"@, "fcitx5 -d"@],
            safe_to_run_unattended: false,
            references: seq!["https://wiki.archlinux.org/title/IBus"@, "https://fcitx-im.org/wiki/Fcitx_5"@],
        },
        RecommendationView {
            id: "VR002"@,
            title: "Stop one of the conflicting IM daemons"@,
            description: "Both ibus-daemon and fcitx5 are running. Pick one and stop the other — having both active confuses the GTK/Qt IM module routing."@,
            commands: seq!["# Keep IBus, stop Fcitx5:"@, "pkill -x fcitx5"@, "# Or keep Fcitx5, stop IBus:"@, "pkill -x ibus-daemon"@],
            safe_to_run_unattended: false,
            references: seq!["https://wiki.archlinux.org/title/Input_method#Troubleshooting"@],
        },
        RecommendationView {
            id: "VR003"@,
            title: "Align IM env variables with the active framework"@,
            description: "GTK_IM_MODULE, QT_IM_MODULE, and XMODIFIERS must all point at the framework you actually run. A mismatch causes some apps to silently drop Vietnamese input."@,
            commands: seq!["# For IBus — add to ~/.profile:"@, "export GTK_IM_MODULE=ibus"@, "export QT_IM_MODULE=ibus"@, "export XMODIFIERS=@im=ibus"@, "# For Fcitx5, use `fcitx` in each value instead."@],
            safe_to_run_unattended: false,
            references: seq!["https://wiki.archlinux.org/title/Input_method#Environment_variables"@],
        },
        RecommendationView {
            id: "VR004"@,
            title: "Set SDL_IM_MODULE"@,
            description: "Games and SDL-based apps (Steam, Love2D, emulators) need SDL_IM_MODULE to route Vietnamese input. Without it they fall back to raw keycodes."@,
            commands: seq!["# For IBus:"@, "export SDL_IM_MODULE=ibus"@, "# For Fcitx5:"@, "export SDL_IM_MODULE=fcitx"@],
            safe_to_run_unattended: true,
            references: seq!["https://wiki.libsdl.org/SDL2/FAQUsingSDL"@],
        },
        RecommendationView {
            id: "VR005"@,
            title: "Register the installed engine"@,
            description: "A Vietnamese IME package is installed on disk but not registered with the active framework. Open the config tool and add it to the input-method list."@,
            commands: seq!["# IBus:"@, "ibus-setup"@, "# Fcitx5:"@, "fcitx5-configtool"@],
            safe_to_run_unattended: false,
            references: seq!["https://github.com/BambooEngine/ibus-bamboo"@, "https://github.com/fcitx/fcitx5-unikey"@],
        },
        RecommendationView {
            id: "VR006"@,
            title: "Consider switching to Fcitx5 on Wayland"@,
            description: "IBus on Wayland has known text-insertion bugs in several desktops. Fcitx5's `wayland-im` addon is the recommended path today. Install the Fcitx5 equivalent of your current engine and log out/in."@,
            commands: seq!["# Debian/Ubuntu:"@, "sudo apt install fcitx5 fcitx5-bamboo"@, "# Arch:"@, "sudo pacman -S fcitx5 fcitx5-bamboo"@],
            safe_to_run_unattended: false,
            references: seq!["https://fcitx-im.org/wiki/Using_Fcitx_5_on_Wayland"@],
        },
        RecommendationView {
            id: "VR007"@,
            title: "Launch Electron apps with Ozone/Wayland flags"@,
            description: "Electron on Wayland needs --ozone-platform=wayland (or UseOzonePlatform in --enable-features) to route IM events through the Wayland text-input protocol. Without it Vietnamese input is dropped silently."@,
            commands: seq!["# Pass on launch:"@, "code --ozone-platform=wayland --enable-features=UseOzonePlatform,WaylandWindowDecorations"@, "# Or persist in ~/.config/code-flags.conf (one flag per line)."@],
            safe_to_run_unattended: true,
            references: seq!["https://www.electronjs.org/docs/latest/api/command-line-switches"@],
        },
        RecommendationView {
            id: "VR008"@,
            title: "Enable Chrome/Chromium Wayland Ozone backend"@,
            description: "Chrome is running with the X11 backend on a Wayland session — Vietnamese input drops through XWayland in that mode. Switch to the Ozone/Wayland backend."@,
            commands: seq!["google-chrome --ozone-platform=wayland"@, "# Or persist via chrome://flags → Preferred Ozone platform → Wayland"@],
            safe_to_run_unattended: true,
            references: seq!["https://wiki.archlinux.org/title/Chromium#Native_Wayland_support"@],
        },
    ]
}

pub open spec fn strs_view(v: Seq<&str>) -> Seq<Seq<char>> {
    Seq::new(v.len(), |i: int| v[i]@)
}

fn strings_from(v: Vec<&str>) -> (r: Vec<String>)
    ensures
        string_views(r@) == strs_view(v@),
{
    let mut out: Vec<String> = Vec::new();
    let mut i: usize = 0;
    while i < v.len()
        invariant
            i <= v.len(),
            string_views(out@) == strs_view(v@).take(i as int),
        decreases v.len() - i,
    {
        let s = v[i].to_owned();
        let ghost before = string_views(out@);
        out.push(s);
        assert(string_views(out@) =~= before.push(v@[i as int]@));
        assert(strs_view(v@).take(i + 1) =~= strs_view(v@).take(i as int).push(v@[i as int]@));
        i += 1;
    }
    assert(strs_view(v@).take(v.len() as int) =~= strs_view(v@));
    out
}

fn make_rec(
    id: &str,
    title: &str,
    description: &str,
    commands: Vec<&str>,
    safe: bool,
    references: Vec<&str>,
) -> (r: Recommendation)
    ensures
        r@ == (RecommendationView {
            id: id@,
            title: title@,
            description: description@,
            commands: strs_view(commands@),
            safe_to_run_unattended: safe,
            references: strs_view(references@),
        }),
{
    Recommendation {
        id: id.to_owned(),
        title: title.to_owned(),
        description: description.to_owned(),
        commands: strings_from(commands),
        safe_to_run_unattended: safe,
        references: strings_from(references),
    }
}

/// Builds the whole catalogue.
#[verifier::rlimit(60)]
fn catalogue() -> (c: Vec<Recommendation>)
    ensures
        rec_views(c@) == catalogue_spec(),
{
    let r0 =
        make_rec(
            "VR001",
            "Start an input-method daemon",
            "No IM daemon is running, but a Vietnamese engine is installed. Start either IBus or Fcitx5 (pick one — running both causes VD002).",
            vec![
                "# Option A — IBus",
                "ibus-daemon -drx",
                "# Option B — Fcitx5",
                "fcitx5 -d",
            ],
            false,
            vec![
                "https://wiki.archlinux.org/title/IBus",
                "https://fcitx-im.org/wiki/Fcitx_5",
            ],
        );
    assert(r0@ =~~= catalogue_spec()[0]);
    let r1 =
        make_rec(
            "VR002",
            "Stop one of the conflicting IM daemons",
            "Both ibus-daemon and fcitx5 are running. Pick one and stop the other — having both active confuses the GTK/Qt IM module routing.",
            vec![
                "# Keep IBus, stop Fcitx5:",
                "pkill -x fcitx5",
                "# Or keep Fcitx5, stop IBus:",
                "pkill -x ibus-daemon",
            ],
            false,
            vec![
                "https://wiki.archlinux.org/title/Input_method#Troubleshooting",
            ],
        );
    assert(r1@ =~~= catalogue_spec()[1]);
    let r2 =
        make_rec(
            "VR003",
            "Align IM env variables with the active framework",
            "GTK_IM_MODULE, QT_IM_MODULE, and XMODIFIERS must all point at the framework you actually run. A mismatch causes some apps to silently drop Vietnamese input.",
            vec![
                "# For IBus — add to ~/.profile:",
                "export GTK_IM_MODULE=ibus",
                "export QT_IM_MODULE=ibus",
                "export XMODIFIERS=@im=ibus",
                "# For Fcitx5, use `fcitx` in each value instead.",
            ],
            false,
            vec![
                "https://wiki.archlinux.org/title/Input_method#Environment_variables",
            ],
        );
    assert(r2@ =~~= catalogue_spec()[2]);
    let r3 =
        make_rec(
            "VR004",
            "Set SDL_IM_MODULE",
            "Games and SDL-based apps (Steam, Love2D, emulators) need SDL_IM_MODULE to route Vietnamese input. Without it they fall back to raw keycodes.",
            vec![
                "# For IBus:",
                "export SDL_IM_MODULE=ibus",
                "# For Fcitx5:",
                "export SDL_IM_MODULE=fcitx",
            ],
            true,
            vec![
                "https://wiki.libsdl.org/SDL2/FAQUsingSDL",
            ],
        );
    assert(r3@ =~~= catalogue_spec()[3]);
    let r4 =
        make_rec(
            "VR005",
            "Register the installed engine",
            "A Vietnamese IME package is installed on disk but not registered with the active framework. Open the config tool and add it to the input-method list.",
            vec![
                "# IBus:",
                "ibus-setup",
                "# Fcitx5:",
                "fcitx5-configtool",
            ],
            false,
            vec![
                "https://github.com/BambooEngine/ibus-bamboo",
                "https://github.com/fcitx/fcitx5-unikey",
            ],
        );
    assert(r4@ =~~= catalogue_spec()[4]);
    let r5 =
        make_rec(
            "VR006",
            "Consider switching to Fcitx5 on Wayland",
            "IBus on Wayland has known text-insertion bugs in several desktops. Fcitx5's `wayland-im` addon is the recommended path today. Install the Fcitx5 equivalent of your current engine and log out/in.",
            vec![
                "# Debian/Ubuntu:",
                "sudo apt install fcitx5 fcitx5-bamboo",
                "# Arch:",
                "sudo pacman -S fcitx5 fcitx5-bamboo",
            ],
            false,
            vec![
                "https://fcitx-im.org/wiki/Using_Fcitx_5_on_Wayland",
            ],
        );
    assert(r5@ =~~= catalogue_spec()[5]);
    let r6 =
        make_rec(
            "VR007",
            "Launch Electron apps with Ozone/Wayland flags",
            "Electron on Wayland needs --ozone-platform=wayland (or UseOzonePlatform in --enable-features) to route IM events through the Wayland text-input protocol. Without it Vietnamese input is dropped silently.",
            vec![
                "# Pass on launch:",
                "code --ozone-platform=wayland --enable-features=UseOzonePlatform,WaylandWindowDecorations",
                "# Or persist in ~/.config/code-flags.conf (one flag per line).",
            ],
            true,
            vec![
                "https://www.electronjs.org/docs/latest/api/command-line-switches",
            ],
        );
    assert(r6@ =~~= catalogue_spec()[6]);
    let r7 =
        make_rec(
            "VR008",
            "Enable Chrome/Chromium Wayland Ozone backend",
            "Chrome is running with the X11 backend on a Wayland session — Vietnamese input drops through XWayland in that mode. Switch to the Ozone/Wayland backend.",
            vec![
                "google-chrome --ozone-platform=wayland",
                "# Or persist via chrome://flags → Preferred Ozone platform → Wayland",
            ],
            true,
            vec![
                "https://wiki.archlinux.org/title/Chromium#Native_Wayland_support",
            ],
        );
    assert(r7@ =~~= catalogue_spec()[7]);
    let c = vec![r0, r1, r2, r3, r4, r5, r6, r7];
    assert(rec_views(c@) =~= catalogue_spec());
    c
}

/// The first catalogue entry from `i` on whose id is `id`.
pub open spec fn find_rec(id: Seq<char>, i: int) -> Option<RecommendationView>
    decreases 8 - i,
{
    if i < 0 || i >= 8 {
        None
    } else if catalogue_spec()[i].id == id {
        Some(catalogue_spec()[i])
    } else {
        find_rec(id, i + 1)
    }
}

/// The recommendation with this id, if the catalogue has one.
pub fn lookup(id: &str) -> (r: Option<Recommendation>)
    ensures
        match r {
            Some(rec) => find_rec(id@, 0) == Some(rec@),
            None => find_rec(id@, 0) is None,
        },
{
    let mut all = catalogue();
    assert(rec_views(all@).len() == all@.len());
    let want = id.to_owned();
    let mut i: usize = 0;
    while i < all.len()
        invariant
            rec_views(all@) == catalogue_spec(),
            all@.len() == 8,
            i <= 8,
            want@ == id@,
            find_rec(id@, 0) == find_rec(id@, i as int),
        decreases 8 - i,
    {
        if all[i].id == want {
            assert(rec_views(all@)[i as int] == all@[i as int]@);
            assert(catalogue_spec()[i as int].id == id@);
            let ghost want_view = all@[i as int]@;
            let r = all.remove(i);
            assert(r@ == want_view);
            return Some(r);
        }
        assert(rec_views(all@)[i as int] == all@[i as int]@);
        i += 1;
    }
    None
}

/// The whole catalogue.
pub fn all() -> (c: Vec<Recommendation>)
    ensures
        rec_views(c@) == catalogue_spec(),
{
    catalogue()
}


/// The catalogue's ids are distinct, so looking up any entry's id finds
/// that very entry.
pub proof fn law_lookup_finds_each_entry()
    ensures
        catalogue_spec().len() == 8,
        forall|i: int| 0 <= i < 8 ==> find_rec(#[trigger] catalogue_spec()[i].id, 0) == Some(catalogue_spec()[i]),
{
    reveal_strlit("VR001");
    reveal_strlit("VR002");
    reveal_strlit("VR003");
    reveal_strlit("VR004");
    reveal_strlit("VR005");
    reveal_strlit("VR006");
    reveal_strlit("VR007");
    reveal_strlit("VR008");
    let c = catalogue_spec();
    assert forall|i: int| 0 <= i < 8 implies find_rec(#[trigger] c[i].id, 0) == Some(c[i]) by {
        assert forall|j: int| 0 <= j < 8 && j != i implies c[j].id != c[i].id by {
            assert(c[j].id[4] != c[i].id[4]);
        }
        reveal_with_fuel(find_rec, 9);
    }
}

} // verus!

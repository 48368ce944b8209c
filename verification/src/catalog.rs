//! Default catalog of packages, desktop environments and drivers.
//!
//! Only a starting point: any other package (official or AUR) can be found and
//! added with the live search.

use vstd::prelude::*;

use crate::model::{DesktopEnvironment, DriverBundle, Package, Source};

verus! {

/// The character views of a list of string slices.
pub open spec fn strs(v: Seq<&'static str>) -> Seq<Seq<char>> {
    v.map_values(|s: &'static str| s@)
}

/// The data of a desktop environment: id, label, packages, display manager.
pub open spec fn env_view(e: DesktopEnvironment) -> (
    Seq<char>,
    Seq<char>,
    Seq<Seq<char>>,
    Option<Seq<char>>,
) {
    (
        e.id@,
        e.label@,
        strs(e.packages@),
        match e.display_manager {
            Some(d) => Some(d@),
            None => None,
        },
    )
}

/// The data of a driver bundle: id, label, packages, selected by default.
pub open spec fn driver_view(d: DriverBundle) -> (Seq<char>, Seq<char>, Seq<Seq<char>>, bool) {
    (d.id@, d.label@, strs(d.packages@), d.default_on)
}

/// The data of a catalog package: name, description, source, selected by default.
pub open spec fn package_view(p: Package) -> (Seq<char>, Seq<char>, Source, bool) {
    (p.name@, p.description@, p.source, p.default_on)
}

/// Common base packages of every graphical environment (all official).
pub open spec fn base_spec() -> Seq<Seq<char>> {
    seq![
        "xorg-server"@,
        "xorg-xinit"@,
        "mesa"@,
        "networkmanager"@,
        "bluez"@,
        "bluez-utils"@,
        "pipewire"@,
        "pipewire-pulse"@,
        "wireplumber"@,
        "git"@,
        "base-devel"@,
    ]
}

/// The selectable desktop environments; the first one means "none".
pub open spec fn envs_spec() -> Seq<(Seq<char>, Seq<char>, Seq<Seq<char>>, Option<Seq<char>>)> {
    seq![
        ("ninguno"@, "Ninguno (solo paquetes, sin entorno grafico)"@, Seq::empty(), None),
        (
            "kde"@,
            "KDE Plasma (Wayland/X11)"@,
            seq!["plasma-meta"@, "konsole"@, "dolphin"@],
            Some("sddm"@),
        ),
        ("gnome"@, "GNOME (Wayland)"@, seq!["gnome"@, "gnome-terminal"@], Some("gdm"@)),
        (
            "hyprland"@,
            "Hyprland (Wayland, tiling)"@,
            seq!["hyprland"@, "waybar"@, "wofi"@, "xdg-desktop-portal-hyprland"@, "kitty"@],
            Some("sddm"@),
        ),
        (
            "qtile"@,
            "Qtile (X11, tiling en Python)"@,
            seq!["qtile"@, "alacritty"@],
            Some("lightdm"@),
        ),
    ]
}

/// The selectable driver bundles (GPU drivers and CPU microcode).
pub open spec fn drivers_spec() -> Seq<(Seq<char>, Seq<char>, Seq<Seq<char>>, bool)> {
    seq![
        (
            "nvidia"@,
            "NVIDIA (driver propietario)"@,
            seq!["nvidia"@, "nvidia-utils"@, "nvidia-settings"@],
            false,
        ),
        (
            "nvidia-open"@,
            "NVIDIA (modulos abiertos, Turing+)"@,
            seq!["nvidia-open"@, "nvidia-utils"@, "nvidia-settings"@],
            false,
        ),
        (
            "amd"@,
            "AMD (amdgpu + Vulkan)"@,
            seq!["xf86-video-amdgpu"@, "vulkan-radeon"@, "libva-mesa-driver"@],
            false,
        ),
        ("intel"@, "Intel (Vulkan + VA-API)"@, seq!["vulkan-intel"@, "intel-media-driver"@], false),
        ("nouveau"@, "NVIDIA libre (nouveau)"@, seq!["xf86-video-nouveau"@], false),
        (
            "vm"@,
            "Maquina virtual (QEMU/virtio)"@,
            seq!["qemu-guest-agent"@, "spice-vdagent"@],
            false,
        ),
        ("intel-ucode"@, "Microcodigo Intel"@, seq!["intel-ucode"@], false),
        ("amd-ucode"@, "Microcodigo AMD"@, seq!["amd-ucode"@], false),
    ]
}

/// Extra packages offered by default.
pub open spec fn extras_spec() -> Seq<(Seq<char>, Seq<char>, Source, bool)> {
    seq![
        ("firefox"@, "Navegador web"@, Source::Official, true),
        ("vlc"@, "Reproductor multimedia"@, Source::Official, true),
        ("vim"@, "Editor de texto"@, Source::Official, true),
        ("neovim"@, "Editor de texto (fork moderno de vim)"@, Source::Official, true),
        ("git"@, "Control de versiones"@, Source::Official, true),
        ("htop"@, "Monitor de procesos"@, Source::Official, true),
        ("fastfetch"@, "Info del sistema en terminal"@, Source::Official, true),
        ("rofi"@, "Lanzador de aplicaciones"@, Source::Official, false),
        ("alacritty"@, "Emulador de terminal (GPU)"@, Source::Official, false),
        ("kitty"@, "Emulador de terminal (GPU)"@, Source::Official, true),
        ("thunar"@, "Gestor de archivos ligero"@, Source::Official, false),
        ("network-manager-applet"@, "Applet de red en bandeja"@, Source::Official, true),
        ("visual-studio-code-bin"@, "Editor de codigo (VS Code)"@, Source::Aur, true),
        ("spotify"@, "Cliente de musica"@, Source::Aur, false),
        ("swww"@, "Daemon de wallpapers para Wayland"@, Source::Aur, false),
        ("ags"@, "Aylur's GTK Shell (widgets)"@, Source::Aur, false),
    ]
}

/// Common base packages of every graphical environment.
pub fn base_packages() -> (r: Vec<&'static str>)
    ensures
        strs(r@) == base_spec(),
{
    let r = vec![
        "xorg-server",
        "xorg-xinit",
        "mesa",
        "networkmanager",
        "bluez",
        "bluez-utils",
        "pipewire",
        "pipewire-pulse",
        "wireplumber",
        "git",
        "base-devel",
    ];
    assert(strs(r@) =~= base_spec());
    r
}

/// The selectable desktop environments. Index 0 is "none" (packages only).
pub fn desktop_environments() -> (r: Vec<DesktopEnvironment>)
    ensures
        r@.map_values(|e: DesktopEnvironment| env_view(e)) == envs_spec(),
{
    let r = vec![
        DesktopEnvironment {
            id: "ninguno",
            label: "Ninguno (solo paquetes, sin entorno grafico)",
            packages: vec![],
            display_manager: None,
        },
        DesktopEnvironment {
            id: "kde",
            label: "KDE Plasma (Wayland/X11)",
            packages: vec!["plasma-meta", "konsole", "dolphin"],
            display_manager: Some("sddm"),
        },
        DesktopEnvironment {
            id: "gnome",
            label: "GNOME (Wayland)",
            packages: vec!["gnome", "gnome-terminal"],
            display_manager: Some("gdm"),
        },
        DesktopEnvironment {
            id: "hyprland",
            label: "Hyprland (Wayland, tiling)",
            packages: vec!["hyprland", "waybar", "wofi", "xdg-desktop-portal-hyprland", "kitty"],
            display_manager: Some("sddm"),
        },
        DesktopEnvironment {
            id: "qtile",
            label: "Qtile (X11, tiling en Python)",
            packages: vec!["qtile", "alacritty"],
            display_manager: Some("lightdm"),
        },
    ];
    proof {
        assert(strs(r@[0].packages@) =~= Seq::empty());
        assert(strs(r@[1].packages@) =~= envs_spec()[1].2);
        assert(strs(r@[2].packages@) =~= envs_spec()[2].2);
        assert(strs(r@[3].packages@) =~= envs_spec()[3].2);
        assert(strs(r@[4].packages@) =~= envs_spec()[4].2);
        assert(r@.map_values(|e: DesktopEnvironment| env_view(e)) =~= envs_spec());
    }
    r
}

/// The selectable driver bundles, parallel to the driver checklist.
pub fn drivers() -> (r: Vec<DriverBundle>)
    ensures
        r@.map_values(|d: DriverBundle| driver_view(d)) == drivers_spec(),
{
    let r = vec![
        DriverBundle {
            id: "nvidia",
            label: "NVIDIA (driver propietario)",
            packages: vec!["nvidia", "nvidia-utils", "nvidia-settings"],
            default_on: false,
        },
        DriverBundle {
            id: "nvidia-open",
            label: "NVIDIA (modulos abiertos, Turing+)",
            packages: vec!["nvidia-open", "nvidia-utils", "nvidia-settings"],
            default_on: false,
        },
        DriverBundle {
            id: "amd",
            label: "AMD (amdgpu + Vulkan)",
            packages: vec!["xf86-video-amdgpu", "vulkan-radeon", "libva-mesa-driver"],
            default_on: false,
        },
        DriverBundle {
            id: "intel",
            label: "Intel (Vulkan + VA-API)",
            packages: vec!["vulkan-intel", "intel-media-driver"],
            default_on: false,
        },
        DriverBundle {
            id: "nouveau",
            label: "NVIDIA libre (nouveau)",
            packages: vec!["xf86-video-nouveau"],
            default_on: false,
        },
        DriverBundle {
            id: "vm",
            label: "Maquina virtual (QEMU/virtio)",
            packages: vec!["qemu-guest-agent", "spice-vdagent"],
            default_on: false,
        },
        DriverBundle {
            id: "intel-ucode",
            label: "Microcodigo Intel",
            packages: vec!["intel-ucode"],
            default_on: false,
        },
        DriverBundle {
            id: "amd-ucode",
            label: "Microcodigo AMD",
            packages: vec!["amd-ucode"],
            default_on: false,
        },
    ];
    proof {
        assert(strs(r@[0].packages@) =~= drivers_spec()[0].2);
        assert(strs(r@[1].packages@) =~= drivers_spec()[1].2);
        assert(strs(r@[2].packages@) =~= drivers_spec()[2].2);
        assert(strs(r@[3].packages@) =~= drivers_spec()[3].2);
        assert(strs(r@[4].packages@) =~= drivers_spec()[4].2);
        assert(strs(r@[5].packages@) =~= drivers_spec()[5].2);
        assert(strs(r@[6].packages@) =~= drivers_spec()[6].2);
        assert(strs(r@[7].packages@) =~= drivers_spec()[7].2);
        assert(r@.map_values(|d: DriverBundle| driver_view(d)) =~= drivers_spec());
    }
    r
}

/// Extra packages offered by default (more can be added with the search).
pub fn extra_packages() -> (r: Vec<Package>)
    ensures
        r@.map_values(|p: Package| package_view(p)) == extras_spec(),
{
    let r = vec![
        Package {
            name: "firefox",
            description: "Navegador web",
            source: Source::Official,
            default_on: true,
        },
        Package {
            name: "vlc",
            description: "Reproductor multimedia",
            source: Source::Official,
            default_on: true,
        },
        Package {
            name: "vim",
            description: "Editor de texto",
            source: Source::Official,
            default_on: true,
        },
        Package {
            name: "neovim",
            description: "Editor de texto (fork moderno de vim)",
            source: Source::Official,
            default_on: true,
        },
        Package {
            name: "git",
            description: "Control de versiones",
            source: Source::Official,
            default_on: true,
        },
        Package {
            name: "htop",
            description: "Monitor de procesos",
            source: Source::Official,
            default_on: true,
        },
        Package {
            name: "fastfetch",
            description: "Info del sistema en terminal",
            source: Source::Official,
            default_on: true,
        },
        Package {
            name: "rofi",
            description: "Lanzador de aplicaciones",
            source: Source::Official,
            default_on: false,
        },
        Package {
            name: "alacritty",
            description: "Emulador de terminal (GPU)",
            source: Source::Official,
            default_on: false,
        },
        Package {
            name: "kitty",
            description: "Emulador de terminal (GPU)",
            source: Source::Official,
            default_on: true,
        },
        Package {
            name: "thunar",
            description: "Gestor de archivos ligero",
            source: Source::Official,
            default_on: false,
        },
        Package {
            name: "network-manager-applet",
            description: "Applet de red en bandeja",
            source: Source::Official,
            default_on: true,
        },
        Package {
            name: "visual-studio-code-bin",
            description: "Editor de codigo (VS Code)",
            source: Source::Aur,
            default_on: true,
        },
        Package {
            name: "spotify",
            description: "Cliente de musica",
            source: Source::Aur,
            default_on: false,
        },
        Package {
            name: "swww",
            description: "Daemon de wallpapers para Wayland",
            source: Source::Aur,
            default_on: false,
        },
        Package {
            name: "ags",
            description: "Aylur's GTK Shell (widgets)",
            source: Source::Aur,
            default_on: false,
        },
    ];
    assert(r@.map_values(|p: Package| package_view(p)) =~= extras_spec());
    r
}

/// The first desktop environment is the "none" option: id `ninguno`, no
/// packages and no display manager; every other environment has packages and a
/// display manager.
pub proof fn lemma_env_none_first()
    ensures
        envs_spec().len() > 0,
        envs_spec()[0].0 == "ninguno"@,
        envs_spec()[0].2.len() == 0,
        envs_spec()[0].3 is None,
        forall|i: int|
            0 < i < envs_spec().len() ==> envs_spec()[i].0 != "ninguno"@ && envs_spec()[i].2.len()
                > 0 && envs_spec()[i].3 is Some,
{
    reveal_strlit("ninguno");
    reveal_strlit("kde");
    reveal_strlit("gnome");
    reveal_strlit("hyprland");
    reveal_strlit("qtile");
}

} // verus!

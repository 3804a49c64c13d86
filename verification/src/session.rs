//! The session of one RDP client: the size it asked for, and how it sees the screen.

use crate::mode::Mode;
use crate::stream::picture_size;
use crate::view::Scene;
use vstd::prelude::*;

verus! {

/// A session on a screen of `sw` by `sh` pixels.
#[derive(Clone, Copy, PartialEq, Eq, Structural, Debug)]
pub struct Session {
    pub sw: u16,
    pub sh: u16,
    /// Whether smaller clients get a window.
    pub viewport: bool,
    /// How frames reach the client.
    pub mode: Mode,
    /// The client's desktop size.
    pub width: u16,
    pub height: u16,
    /// How the client sees the screen.
    pub scene: Scene,
}

impl Session {
    /// Whether there is a screen, and the scene is one of it.
    pub open spec fn on_screen(self) -> bool {
        &&& self.sw > 0 && self.sh > 0
        &&& self.scene.wf()
        &&& self.scene.sw == self.sw
        &&& self.scene.sh == self.sh
    }

    /// Whether there is a desktop on a screen, and the pictures have the session's size.
    pub open spec fn wf(self) -> bool {
        &&& self.on_screen()
        &&& self.width > 0 && self.height > 0
        &&& ({
            let (w, h) = crate::stream::picture(self.mode, self.width, self.height);
            w > 0 && h > 0 ==> self.scene.cw == w && self.scene.ch == h
        })
    }

    /// The scene for a desktop of a size in a mode. It is remade where the pictures get
    /// another size, and kept, with its window where it is, where they do not.
    pub open spec fn scene_for(self, mode: Mode, width: u16, height: u16) -> Scene {
        let (w, h) = crate::stream::picture(mode, width, height);
        if w == 0 || h == 0 || (w == self.scene.cw && h == self.scene.ch) {
            self.scene
        } else {
            Scene::fresh(self.sw, self.sh, w, h, self.viewport)
        }
    }

    /// A session before a client has asked for a size: that of the screen.
    pub fn new(sw: u16, sh: u16, viewport: bool) -> (r: Session)
        requires
            sw > 0,
            sh > 0,
        ensures
            r.wf(),
            r == (Session {
                sw,
                sh,
                viewport,
                mode: Mode::Unknown,
                width: sw,
                height: sh,
                scene: Scene::fresh(sw, sh, sw, sh, viewport),
            }),
    {
        let scene = Scene::new(sw, sh, sw, sh, viewport);
        Session { sw, sh, viewport, mode: Mode::Unknown, width: sw, height: sh, scene }
    }

    fn refit(&mut self)
        requires
            old(self).width > 0,
            old(self).height > 0,
            old(self).on_screen(),
        ensures
            final(self).wf(),
            *final(self) == (Session {
                scene: old(self).scene_for(old(self).mode, old(self).width, old(self).height),
                ..*old(self)
            }),
    {
        let (w, h): (u16, u16) = picture_size(self.mode, self.width, self.height);
        if w > 0 && h > 0 && !(w == self.scene.cw && h == self.scene.ch) {
            self.scene = Scene::new(self.sw, self.sh, w, h, self.viewport);
        }
    }

    /// A client asks for a desktop of a size, and gets it unless it has no extent.
    pub fn ask(&mut self, width: u16, height: u16)
        requires
            old(self).wf(),
        ensures
            final(self).wf(),
            *final(self) == if width > 0 && height > 0 {
                Session {
                    width,
                    height,
                    scene: old(self).scene_for(old(self).mode, width, height),
                    ..*old(self)
                }
            } else {
                *old(self)
            },
            width > 0 && height > 0 ==> final(self).width == width && final(self).height == height,
            width > 0 && height > 0 && !(old(self).mode is Avc) ==> final(self).scene.cw == width
                && final(self).scene.ch == height,
    {
        if width > 0 && height > 0 {
            self.width = width;
            self.height = height;
            self.refit();
        }
    }

    /// Frames reach the client in another way from here on.
    pub fn set_mode(&mut self, mode: Mode)
        requires
            old(self).wf(),
        ensures
            final(self).wf(),
            *final(self) == (Session {
                mode,
                scene: old(self).scene_for(mode, old(self).width, old(self).height),
                ..*old(self)
            }),
            final(self).mode == mode,
            !(mode is Avc) ==> final(self).scene.cw == old(self).width && final(self).scene.ch
                == old(self).height,
    {
        self.mode = mode;
        self.refit();
    }
}

/// The session takes the client's desktop size, and all of it is shown but for what H.264
/// cuts off.
pub proof fn law_session_has_the_clients_size(s: Session, width: u16, height: u16)
    requires
        s.wf(),
        width > 0,
        height > 0,
    ensures
        ({
            let scene = s.scene_for(s.mode, width, height);
            if s.mode is Avc {
                width >= 16 && height >= 16 ==> scene.cw == width - width % 16 && scene.ch
                    == height - height % 16
            } else {
                scene.cw == width && scene.ch == height
            }
        }),
{
}

/// A change of the mode that leaves the size of the pictures leaves the window where it
/// is.
pub proof fn law_mode_leaves_the_window(s: Session, mode: Mode)
    requires
        s.wf(),
        crate::stream::picture(mode, s.width, s.height) == (s.scene.cw, s.scene.ch),
    ensures
        s.scene_for(mode, s.width, s.height) == s.scene,
{
}

/// A scene that is remade is of the session's own screen, with the picture's width across
/// and its height along, and has a window if the session gives one.
pub proof fn law_scene_is_of_the_screen(s: Session, mode: Mode, width: u16, height: u16)
    requires
        s.wf(),
        !(mode is Avc),
        width > 0,
        height > 0,
    ensures
        ({
            let scene = s.scene_for(mode, width, height);
            &&& scene.sw == s.sw
            &&& scene.sh == s.sh
            &&& scene.cw == width
            &&& scene.ch == height
            &&& width != s.scene.cw || height != s.scene.ch ==> scene == Scene::fresh(
                s.sw,
                s.sh,
                width,
                height,
                s.viewport,
            )
            &&& width == s.scene.cw && height == s.scene.ch ==> scene == s.scene
        }),
{
}

} // verus!

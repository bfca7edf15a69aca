use vstd::prelude::*;
use crate::text::{concat_text, text_eq};

verus! {

/// The layouts of the overlay window.
#[derive(Debug, Clone, Copy, PartialEq, Eq, Structural)]
pub enum OverlayLayout {
    Parked,
    Dock,
    Label,
    Menu,
    Recording,
    Status,
}

/// A window size in logical pixels.
#[derive(Debug, Clone, Copy, PartialEq, Eq, Structural)]
pub struct OverlaySize {
    pub width: u32,
    pub height: u32,
}

/// The layout a name stands for.
pub open spec fn layout_named(name: Seq<char>) -> Option<OverlayLayout> {
    if name == "parked"@ {
        Some(OverlayLayout::Parked)
    } else if name == "dock"@ {
        Some(OverlayLayout::Dock)
    } else if name == "label"@ {
        Some(OverlayLayout::Label)
    } else if name == "menu"@ {
        Some(OverlayLayout::Menu)
    } else if name == "recording"@ {
        Some(OverlayLayout::Recording)
    } else if name == "status"@ {
        Some(OverlayLayout::Status)
    } else {
        None
    }
}

/// Each layout name stands for the layout of that name: `parked` for the parked overlay, `dock`
/// for the dock, `label` for the label, `menu` for the menu, `recording` for the recording
/// overlay and `status` for the status overlay.
pub proof fn lemma_layout_names(n: Seq<char>)
    ensures
        n == "parked"@ ==> layout_named(n) == Some(OverlayLayout::Parked),
        n == "dock"@ ==> layout_named(n) == Some(OverlayLayout::Dock),
        n == "label"@ ==> layout_named(n) == Some(OverlayLayout::Label),
        n == "menu"@ ==> layout_named(n) == Some(OverlayLayout::Menu),
        n == "recording"@ ==> layout_named(n) == Some(OverlayLayout::Recording),
        n == "status"@ ==> layout_named(n) == Some(OverlayLayout::Status),
{
    reveal_strlit("parked");
    reveal_strlit("dock");
    reveal_strlit("label");
    reveal_strlit("menu");
    reveal_strlit("recording");
    reveal_strlit("status");
    if n == "dock"@ {
        assert(n[0] != "menu"@[0]);
    }
    if n == "menu"@ {
        assert(n[0] != "dock"@[0]);
    }
    if n == "status"@ {
        assert(n[0] != "parked"@[0]);
    }
    if n == "parked"@ {
        assert(n[0] != "status"@[0]);
    }
    if n == "parked"@ {
        assert(n.len() == 6);
    }
    if n == "dock"@ {
        assert(n.len() == 4);
    }
    if n == "label"@ {
        assert(n.len() == 5);
    }
    if n == "menu"@ {
        assert(n.len() == 4);
    }
    if n == "recording"@ {
        assert(n.len() == 9);
    }
    if n == "status"@ {
        assert(n.len() == 6);
    }
}

/// The layout named `layout`, or an error naming it.
pub fn overlay_layout(layout: &str) -> (r: Result<OverlayLayout, String>)
    ensures
        layout@ == "parked"@ ==> r == Ok::<OverlayLayout, String>(OverlayLayout::Parked),
        layout@ == "dock"@ ==> r == Ok::<OverlayLayout, String>(OverlayLayout::Dock),
        layout@ == "label"@ ==> r == Ok::<OverlayLayout, String>(OverlayLayout::Label),
        layout@ == "menu"@ ==> r == Ok::<OverlayLayout, String>(OverlayLayout::Menu),
        layout@ == "recording"@ ==> r == Ok::<OverlayLayout, String>(OverlayLayout::Recording),
        layout@ == "status"@ ==> r == Ok::<OverlayLayout, String>(OverlayLayout::Status),
        match layout_named(layout@) {
            Some(l) => r == Ok::<OverlayLayout, String>(l),
            None => r matches Err(e) && e@ == "Unknown overlay layout: "@ + layout@,
        },
{
    proof {
        lemma_layout_names(layout@);
    }
    if text_eq(layout, "parked") {
        Ok(OverlayLayout::Parked)
    } else if text_eq(layout, "dock") {
        Ok(OverlayLayout::Dock)
    } else if text_eq(layout, "label") {
        Ok(OverlayLayout::Label)
    } else if text_eq(layout, "menu") {
        Ok(OverlayLayout::Menu)
    } else if text_eq(layout, "recording") {
        Ok(OverlayLayout::Recording)
    } else if text_eq(layout, "status") {
        Ok(OverlayLayout::Status)
    } else {
        Err(concat_text("Unknown overlay layout: ", layout))
    }
}

/// The window size of a layout at the regular dock size and no offsets.
pub open spec fn base_size(layout: OverlayLayout) -> (u32, u32) {
    match layout {
        OverlayLayout::Parked => (120, 44),
        OverlayLayout::Dock => (460, 86),
        OverlayLayout::Label => (460, 144),
        OverlayLayout::Menu => (460, 420),
        OverlayLayout::Recording => (440, 92),
        OverlayLayout::Status => (360, 76),
    }
}

/// The window size of a layout at the regular dock size and no offsets.
pub fn overlay_base_size(layout: OverlayLayout) -> (r: OverlaySize)
    ensures
        layout == OverlayLayout::Parked ==> r.width == 120 && r.height == 44,
        layout == OverlayLayout::Dock ==> r.width == 460 && r.height == 86,
        layout == OverlayLayout::Label ==> r.width == 460 && r.height == 144,
        layout == OverlayLayout::Menu ==> r.width == 460 && r.height == 420,
        layout == OverlayLayout::Recording ==> r.width == 440 && r.height == 92,
        layout == OverlayLayout::Status ==> r.width == 360 && r.height == 76,
        (r.width, r.height) == base_size(layout),
{
    match layout {
        OverlayLayout::Parked => OverlaySize { width: 120, height: 44 },
        OverlayLayout::Dock => OverlaySize { width: 460, height: 86 },
        OverlayLayout::Label => OverlaySize { width: 460, height: 144 },
        OverlayLayout::Menu => OverlaySize { width: 460, height: 420 },
        OverlayLayout::Recording => OverlaySize { width: 440, height: 92 },
        OverlayLayout::Status => OverlaySize { width: 360, height: 76 },
    }
}

/// The smallest window of a layout, whatever the dock preferences; the status size for a name
/// that is no layout.
pub open spec fn min_size(layout: Seq<char>) -> (u32, u32) {
    match layout_named(layout) {
        Some(OverlayLayout::Parked) => (82, 34),
        Some(OverlayLayout::Dock) => (340, 62),
        Some(OverlayLayout::Label) => (340, 98),
        Some(OverlayLayout::Menu) => (340, 320),
        Some(OverlayLayout::Recording) => (320, 70),
        _ => (280, 58),
    }
}

/// The smallest window of the named layout.
pub fn overlay_min_size(layout: &str) -> (r: OverlaySize)
    ensures
        layout@ == "parked"@ ==> r.width == 82 && r.height == 34,
        layout@ == "dock"@ ==> r.width == 340 && r.height == 62,
        layout@ == "label"@ ==> r.width == 340 && r.height == 98,
        layout@ == "menu"@ ==> r.width == 340 && r.height == 320,
        layout@ == "recording"@ ==> r.width == 320 && r.height == 70,
        layout@ == "status"@ ==> r.width == 280 && r.height == 58,
        (r.width, r.height) == min_size(layout@),
{
    proof {
        lemma_layout_names(layout@);
    }
    match overlay_layout(layout) {
        Ok(OverlayLayout::Parked) => OverlaySize { width: 82, height: 34 },
        Ok(OverlayLayout::Dock) => OverlaySize { width: 340, height: 62 },
        Ok(OverlayLayout::Label) => OverlaySize { width: 340, height: 98 },
        Ok(OverlayLayout::Menu) => OverlaySize { width: 340, height: 320 },
        Ok(OverlayLayout::Recording) => OverlaySize { width: 320, height: 70 },
        _ => OverlaySize { width: 280, height: 58 },
    }
}

} // verus!

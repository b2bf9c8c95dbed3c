use vstd::prelude::*;

use crate::config::{resolve, ConfigError, ConfigView, WallpaperConfig};
use crate::settings::WallpaperSettings;
use crate::surface::{
    configure_step, initial_state, may_render, resize_step, scale_step, transform_step,
    ConfigureAction, Dimensions, Surface,
};

verus! {

/// Some surface in the list belongs to output `o`.
pub open spec fn has_output(s: Seq<Surface>, o: u64) -> bool {
    exists|i: int| 0 <= i < s.len() && s[i].output == o
}

/// Some surface in the list is drawn on layer surface `l`.
pub open spec fn has_layer(s: Seq<Surface>, l: u64) -> bool {
    exists|i: int| 0 <= i < s.len() && s[i].layer == l
}

/// The outputs that have a surface.
pub open spec fn live_outputs(s: Seq<Surface>) -> Set<u64> {
    Set::new(|o: u64| has_output(s, o))
}

/// No two surfaces share an output or a layer surface.
pub open spec fn unique_keys(s: Seq<Surface>) -> bool {
    forall|i: int, j: int|
        0 <= i < s.len() && 0 <= j < s.len() && i != j ==> s[i].output != s[j].output && s[i].layer
            != s[j].layer
}

pub open spec fn index_of_output(s: Seq<Surface>, o: u64) -> int {
    choose|i: int| 0 <= i < s.len() && s[i].output == o
}

pub open spec fn index_of_layer(s: Seq<Surface>, l: u64) -> int {
    choose|i: int| 0 <= i < s.len() && s[i].layer == l
}

/// The list without the surface of output `o`; the last surface takes its place.
pub open spec fn remove_output(s: Seq<Surface>, o: u64) -> Seq<Surface> {
    s.update(index_of_output(s, o), s.last()).drop_last()
}

proof fn lemma_index_of_output(s: Seq<Surface>, i: int)
    requires
        unique_keys(s),
        0 <= i < s.len(),
    ensures
        index_of_output(s, s[i].output) == i,
{
    let o = s[i].output;
    assert(exists|k: int| 0 <= k < s.len() && s[k].output == o);
}

proof fn lemma_index_of_layer(s: Seq<Surface>, i: int)
    requires
        unique_keys(s),
        0 <= i < s.len(),
    ensures
        index_of_layer(s, s[i].layer) == i,
{
    let l = s[i].layer;
    assert(exists|k: int| 0 <= k < s.len() && s[k].layer == l);
}

/// `b` has the same live outputs and layer surfaces as `a`, each at the same
/// position.
pub open spec fn keys_kept(a: Seq<Surface>, b: Seq<Surface>) -> bool {
    &&& forall|o: u64| #[trigger] has_output(b, o) == has_output(a, o)
    &&& forall|l: u64| #[trigger] has_layer(b, l) == has_layer(a, l)
    &&& forall|o: u64| has_output(a, o) ==> #[trigger] index_of_output(b, o) == index_of_output(a, o)
    &&& forall|l: u64| has_layer(a, l) ==> #[trigger] index_of_layer(b, l) == index_of_layer(a, l)
}

proof fn lemma_update_keeps_keys(s: Seq<Surface>, i: int, n: Surface)
    requires
        unique_keys(s),
        0 <= i < s.len(),
        n.output == s[i].output,
        n.layer == s[i].layer,
    ensures
        unique_keys(s.update(i, n)),
        keys_kept(s, s.update(i, n)),
{
    let t = s.update(i, n);
    assert forall|k: int| 0 <= k < s.len() implies t[k].output == s[k].output && t[k].layer
        == s[k].layer by {}
    assert forall|o: u64| #[trigger] has_output(t, o) == has_output(s, o) by {
        if has_output(s, o) {
            let k = choose|k: int| 0 <= k < s.len() && s[k].output == o;
            assert(t[k].output == o);
        }
        if has_output(t, o) {
            let k = choose|k: int| 0 <= k < t.len() && t[k].output == o;
            assert(s[k].output == o);
        }
    }
    assert forall|l: u64| #[trigger] has_layer(t, l) == has_layer(s, l) by {
        if has_layer(s, l) {
            let k = choose|k: int| 0 <= k < s.len() && s[k].layer == l;
            assert(t[k].layer == l);
        }
        if has_layer(t, l) {
            let k = choose|k: int| 0 <= k < t.len() && t[k].layer == l;
            assert(s[k].layer == l);
        }
    }
    assert(unique_keys(t));
    assert forall|o: u64| has_output(s, o) implies #[trigger] index_of_output(t, o)
        == index_of_output(s, o) by {
        let k = index_of_output(s, o);
        lemma_index_of_output(s, k);
        lemma_index_of_output(t, k);
    }
    assert forall|l: u64| has_layer(s, l) implies #[trigger] index_of_layer(t, l)
        == index_of_layer(s, l) by {
        let k = index_of_layer(s, l);
        lemma_index_of_layer(s, k);
        lemma_index_of_layer(t, k);
    }
}

/// Removing the surface of a live output keeps the keys unique, drops that
/// output from the live set and nothing else.
pub proof fn lemma_remove_output(s: Seq<Surface>, o: u64)
    requires
        unique_keys(s),
        has_output(s, o),
    ensures
        unique_keys(remove_output(s, o)),
        live_outputs(remove_output(s, o)) =~= live_outputs(s).remove(o),
        remove_output(s, o).len() == s.len() - 1,
{
    let i = index_of_output(s, o);
    let r = remove_output(s, o);
    assert(0 <= i < s.len() && s[i].output == o);
    assert forall|k: int| 0 <= k < r.len() implies (r[k] == if k == i {
        s[s.len() - 1]
    } else {
        s[k]
    }) by {}
    assert forall|p: u64| live_outputs(r).contains(p) implies live_outputs(s).remove(o).contains(
        p,
    ) by {
        let k = choose|k: int| 0 <= k < r.len() && r[k].output == p;
        if k == i {
            assert(s[s.len() - 1].output == p);
        } else {
            assert(s[k].output == p);
        }
    }
    assert forall|p: u64| live_outputs(s).remove(o).contains(p) implies live_outputs(r).contains(
        p,
    ) by {
        let k = choose|k: int| 0 <= k < s.len() && s[k].output == p;
        if k == s.len() - 1 {
            assert(r[i].output == p);
        } else {
            assert(k != i);
            assert(r[k].output == p);
        }
    }
}

/// Appending a surface for a new output and a new layer surface keeps the
/// keys unique and adds that output to the live set.
pub proof fn lemma_push_output(s: Seq<Surface>, n: Surface)
    requires
        unique_keys(s),
        !has_output(s, n.output),
        !has_layer(s, n.layer),
    ensures
        unique_keys(s.push(n)),
        live_outputs(s.push(n)) =~= live_outputs(s).insert(n.output),
{
    let r = s.push(n);
    assert forall|p: u64| live_outputs(r).contains(p) implies live_outputs(s).insert(
        n.output,
    ).contains(p) by {
        let k = choose|k: int| 0 <= k < r.len() && r[k].output == p;
        if k < s.len() {
            assert(s[k].output == p);
        }
    }
    assert forall|p: u64| live_outputs(s).insert(n.output).contains(p) implies live_outputs(
        r,
    ).contains(p) by {
        if p == n.output {
            assert(r[s.len() as int].output == p);
        } else {
            let k = choose|k: int| 0 <= k < s.len() && s[k].output == p;
            assert(r[k].output == p);
        }
    }
}

/// With unique keys, the number of surfaces is the number of live outputs.
pub proof fn lemma_live_len(s: Seq<Surface>)
    requires
        unique_keys(s),
    ensures
        live_outputs(s).finite(),
        live_outputs(s).len() == s.len(),
{
    let outs = s.map_values(|x: Surface| x.output);
    assert(outs.no_duplicates()) by {
        assert forall|i: int, j: int|
            0 <= i < outs.len() && 0 <= j < outs.len() && i != j implies outs[i] != outs[j] by {
            assert(outs[i] == s[i].output);
            assert(outs[j] == s[j].output);
        }
    }
    outs.unique_seq_to_set();
    vstd::seq_lib::seq_to_set_is_finite(outs);
    assert(live_outputs(s) =~= outs.to_set()) by {
        assert forall|p: u64| live_outputs(s).contains(p) implies outs.contains(p) by {
            let k = choose|k: int| 0 <= k < s.len() && s[k].output == p;
            assert(outs[k] == p);
        }
        assert forall|p: u64| outs.contains(p) implies live_outputs(s).contains(p) by {
            let k = choose|k: int| 0 <= k < outs.len() && outs[k] == p;
            assert(s[k].output == p);
        }
    }
}

/// The namespace of the layer surface drawn for the output called `name`.
pub open spec fn layer_namespace(name: Seq<char>) -> Seq<char> {
    "wpaperd-"@ + name
}

/// How the layer surface of a new output is to be set up.
#[derive(Debug)]
pub struct LayerRequest {
    /// Tells the layer surfaces of the outputs apart.
    pub namespace: String,
    pub buffer_scale: i32,
    /// Anchored to the top, left, right and bottom edges of the output.
    pub anchor_all_edges: bool,
    /// -1: reserve no space, and ignore the zones of other surfaces.
    pub exclusive_zone: i32,
    /// (0, 0): the compositor decides the size.
    pub size: Dimensions,
}

/// The reconciliation engine: the surfaces of the live outputs and the
/// wallpaper configuration they take their settings from.
#[derive(Debug)]
pub struct Wpaperd {
    pub surfaces: Vec<Surface>,
    pub wallpaper_config: WallpaperConfig,
    pub use_scaled_window: bool,
}

impl Wpaperd {
    /// The configuration in force.
    pub open spec fn config(&self) -> ConfigView {
        self.wallpaper_config@
    }

    /// Whether the compositor scales a buffer of scale 1 itself.
    pub open spec fn scaled_window(&self) -> bool {
        self.use_scaled_window
    }

    pub open spec fn config_wf(&self) -> bool {
        self.wallpaper_config.wf()
    }

    pub open spec fn wf(&self) -> bool {
        unique_keys(self.surfaces@) && self.config_wf()
    }

    /// The buffer scale of a new surface on an output that reports `factor`.
    pub open spec fn initial_scale(&self, factor: i32) -> i32 {
        if self.scaled_window() {
            1
        } else {
            factor
        }
    }

    pub fn new(wallpaper_config: WallpaperConfig, use_scaled_window: bool) -> (r: Wpaperd)
        requires
            wallpaper_config.wf(),
        ensures
            r.wf(),
            r.surfaces@.len() == 0,
            r.config() == wallpaper_config@,
            r.scaled_window() == use_scaled_window,
    {
        Wpaperd { surfaces: Vec::new(), wallpaper_config, use_scaled_window }
    }

    pub fn wallpaper_config(&self) -> (r: &WallpaperConfig)
        requires
            self.wf(),
        ensures
            r@ == self.config(),
            r.wf(),
    {
        &self.wallpaper_config
    }

    /// Takes the outcome of reading the configuration file again. A new
    /// configuration replaces the one in force; `Ok(true)` says that it
    /// differs from it. A failed read leaves the configuration in force and is
    /// handed back. The surfaces are never touched.
    pub fn reload_config(&mut self, parsed: Result<WallpaperConfig, ConfigError>) -> (r: Result<
        bool,
        ConfigError,
    >)
        requires
            old(self).wf(),
            parsed matches Ok(c) ==> c.wf(),
        ensures
            final(self).wf(),
            final(self).surfaces@ == old(self).surfaces@,
            final(self).scaled_window() == old(self).scaled_window(),
            match parsed {
                Ok(c) => r == Ok::<bool, ConfigError>(c@ != old(self).config())
                    && final(self).config() == c@,
                Err(e) => r == Err::<bool, ConfigError>(e) && final(self).config() == old(
                    self,
                ).config(),
            },
    {
        match parsed {
            Ok(config) => {
                if config.same_as(&self.wallpaper_config) {
                    Ok(false)
                } else {
                    self.wallpaper_config = config;
                    Ok(true)
                }
            },
            Err(e) => Err(e),
        }
    }

    /// The position of the surface of output `output`, if it is live.
    pub fn find_by_output(&self, output: u64) -> (r: Option<usize>)
        requires
            self.wf(),
        ensures
            r is Some <==> has_output(self.surfaces@, output),
            r matches Some(i) ==> i < self.surfaces.len() && i == index_of_output(
                self.surfaces@,
                output,
            ) && self.surfaces@[i as int].output == output,
    {
        let n = self.surfaces.len();
        let mut i: usize = 0;
        while i < n
            invariant
                n == self.surfaces.len(),
                self.wf(),
                0 <= i <= n,
                forall|k: int| 0 <= k < i ==> self.surfaces@[k].output != output,
            decreases n - i,
        {
            if self.surfaces[i].output == output {
                proof {
                    lemma_index_of_output(self.surfaces@, i as int);
                }
                return Some(i);
            }
            i += 1;
        }
        None
    }

    /// The position of the surface drawn on layer surface `layer`, if any.
    pub fn find_by_layer(&self, layer: u64) -> (r: Option<usize>)
        requires
            self.wf(),
        ensures
            r is Some <==> has_layer(self.surfaces@, layer),
            r matches Some(i) ==> i < self.surfaces.len() && i == index_of_layer(
                self.surfaces@,
                layer,
            ) && self.surfaces@[i as int].layer == layer,
    {
        let n = self.surfaces.len();
        let mut i: usize = 0;
        while i < n
            invariant
                n == self.surfaces.len(),
                self.wf(),
                0 <= i <= n,
                forall|k: int| 0 <= k < i ==> self.surfaces@[k].layer != layer,
            decreases n - i,
        {
            if self.surfaces[i].layer == layer {
                proof {
                    lemma_index_of_layer(self.surfaces@, i as int);
                }
                return Some(i);
            }
            i += 1;
        }
        None
    }

    pub fn has_output(&self, output: u64) -> (r: bool)
        requires
            self.wf(),
        ensures
            r == has_output(self.surfaces@, output),
    {
        self.find_by_output(output).is_some()
    }

    pub fn has_layer(&self, layer: u64) -> (r: bool)
        requires
            self.wf(),
        ensures
            r == has_layer(self.surfaces@, layer),
    {
        self.find_by_layer(layer).is_some()
    }

    /// The layer surface to create for an output called `name` that reports
    /// scale `scale_factor`: a background covering the whole output, with an
    /// empty input region so that the compositor draws its default cursor.
    pub fn layer_request(&self, name: &String, scale_factor: i32) -> (r: LayerRequest)
        ensures
            r.namespace@ == layer_namespace(name@),
            r.buffer_scale == self.initial_scale(scale_factor),
            r.anchor_all_edges,
            r.exclusive_zone == -1,
            r.size == (Dimensions { width: 0, height: 0 }),
    {
        proof {
            reveal_strlit("wpaperd-");
        }
        let namespace = String::from_str("wpaperd-").concat(name.as_str());
        let buffer_scale: i32 = if self.use_scaled_window {
            1
        } else {
            scale_factor
        };
        LayerRequest {
            namespace,
            buffer_scale,
            anchor_all_edges: true,
            exclusive_zone: -1,
            size: Dimensions { width: 0, height: 0 },
        }
    }

    /// An output appeared: a surface for it, drawn on layer surface `layer`,
    /// joins the registry with the settings configured for `name`. Returns the
    /// buffer scale to give the render target.
    pub fn new_output(&mut self, output: u64, layer: u64, name: String, scale_factor: i32) -> (r:
        i32)
        requires
            old(self).wf(),
            !has_output(old(self).surfaces@, output),
            !has_layer(old(self).surfaces@, layer),
        ensures
            final(self).wf(),
            final(self).config() == old(self).config(),
            final(self).scaled_window() == old(self).scaled_window(),
            r == old(self).initial_scale(scale_factor),
            final(self).surfaces@.len() == old(self).surfaces@.len() + 1,
            final(self).surfaces@.drop_last() == old(self).surfaces@,
            final(self).surfaces@.last().name@ == name@,
            final(self).surfaces@.last().output == output,
            final(self).surfaces@.last().layer == layer,
            final(self).surfaces@.last().state == initial_state(r),
            final(self).surfaces@.last().settings@ == resolve(old(self).config(), name@),
            live_outputs(final(self).surfaces@) == live_outputs(old(self).surfaces@).insert(output),
    {
        let scale: i32 = if self.use_scaled_window {
            1
        } else {
            scale_factor
        };
        let settings = self.wallpaper_config.get_output_by_name(&name);
        let surface = Surface::new(name, output, layer, scale, settings);
        proof {
            lemma_push_output(self.surfaces@, surface);
        }
        self.surfaces.push(surface);
        assert(self.surfaces@.drop_last() =~= old(self).surfaces@);
        scale
    }

    /// An output disappeared: its surface leaves the registry and is handed
    /// back so that its render resources can be released.
    pub fn output_destroyed(&mut self, output: u64) -> (r: Surface)
        requires
            old(self).wf(),
            has_output(old(self).surfaces@, output),
        ensures
            final(self).wf(),
            final(self).config() == old(self).config(),
            final(self).scaled_window() == old(self).scaled_window(),
            r == old(self).surfaces@[index_of_output(old(self).surfaces@, output)],
            final(self).surfaces@ == remove_output(old(self).surfaces@, output),
            final(self).surfaces@.len() == old(self).surfaces@.len() - 1,
            live_outputs(final(self).surfaces@) == live_outputs(old(self).surfaces@).remove(output),
    {
        let i = self.find_by_output(output).unwrap();
        proof {
            lemma_remove_output(self.surfaces@, output);
        }
        self.surfaces.swap_remove(i)
    }

    /// The scale factor of the surface of `output` changed. Returns whether the
    /// render target must take the new scale and resize, keeping its size.
    pub fn scale_factor_changed(&mut self, output: u64, new_factor: i32) -> (r: bool)
        requires
            old(self).wf(),
            has_output(old(self).surfaces@, output),
        ensures
            final(self).wf(),
            final(self).config() == old(self).config(),
            final(self).scaled_window() == old(self).scaled_window(),
            ({
                let i = index_of_output(old(self).surfaces@, output);
                let s = old(self).surfaces@[i];
                &&& r == scale_step(s.state, new_factor).1
                &&& final(self).surfaces@ == old(self).surfaces@.update(
                    i,
                    Surface { state: scale_step(s.state, new_factor).0, ..s },
                )
            }),
            keys_kept(old(self).surfaces@, final(self).surfaces@),
    {
        let i = self.find_by_output(output).unwrap();
        let mut state = self.surfaces[i].state;
        let resize = state.scale_factor_changed(new_factor);
        proof {
            lemma_update_keeps_keys(self.surfaces@, i as int, Surface { state, ..self.surfaces@[i as int] });
        }
        let surface = self.surfaces[i].with_state(state);
        self.surfaces.set(i, surface);
        resize
    }

    /// The transform of the surface of `output` changed; no resize follows.
    pub fn transform_changed(&mut self, output: u64, new_transform: u32)
        requires
            old(self).wf(),
            has_output(old(self).surfaces@, output),
        ensures
            final(self).wf(),
            final(self).config() == old(self).config(),
            final(self).scaled_window() == old(self).scaled_window(),
            ({
                let i = index_of_output(old(self).surfaces@, output);
                let s = old(self).surfaces@[i];
                final(self).surfaces@ == old(self).surfaces@.update(
                    i,
                    Surface { state: transform_step(s.state, new_transform), ..s },
                )
            }),
            keys_kept(old(self).surfaces@, final(self).surfaces@),
    {
        let i = self.find_by_output(output).unwrap();
        let mut state = self.surfaces[i].state;
        state.transform_changed(new_transform);
        proof {
            lemma_update_keeps_keys(self.surfaces@, i as int, Surface { state, ..self.surfaces@[i as int] });
        }
        let surface = self.surfaces[i].with_state(state);
        self.surfaces.set(i, surface);
    }

    /// The compositor configured layer surface `layer` with size `new_size`.
    /// A new size asks for a resize first; the surface becomes configured only
    /// once no resize is owed.
    pub fn configure(&mut self, layer: u64, new_size: Dimensions) -> (r: ConfigureAction)
        requires
            old(self).wf(),
            has_layer(old(self).surfaces@, layer),
        ensures
            final(self).wf(),
            final(self).config() == old(self).config(),
            final(self).scaled_window() == old(self).scaled_window(),
            ({
                let i = index_of_layer(old(self).surfaces@, layer);
                let s = old(self).surfaces@[i];
                &&& r == configure_step(s.state, new_size).1
                &&& final(self).surfaces@ == old(self).surfaces@.update(
                    i,
                    Surface { state: configure_step(s.state, new_size).0, ..s },
                )
            }),
            keys_kept(old(self).surfaces@, final(self).surfaces@),
    {
        let i = self.find_by_layer(layer).unwrap();
        let mut state = self.surfaces[i].state;
        let action = state.configure(new_size);
        proof {
            lemma_update_keeps_keys(self.surfaces@, i as int, Surface { state, ..self.surfaces@[i as int] });
        }
        let surface = self.surfaces[i].with_state(state);
        self.surfaces.set(i, surface);
        action
    }

    /// The resize that a configure event asked of layer surface `layer`
    /// finished, successfully or not.
    pub fn resize_finished(&mut self, layer: u64, ok: bool)
        requires
            old(self).wf(),
            has_layer(old(self).surfaces@, layer),
        ensures
            final(self).wf(),
            final(self).config() == old(self).config(),
            final(self).scaled_window() == old(self).scaled_window(),
            ({
                let i = index_of_layer(old(self).surfaces@, layer);
                let s = old(self).surfaces@[i];
                final(self).surfaces@ == old(self).surfaces@.update(
                    i,
                    Surface { state: resize_step(s.state, ok), ..s },
                )
            }),
            keys_kept(old(self).surfaces@, final(self).surfaces@),
    {
        let i = self.find_by_layer(layer).unwrap();
        let mut state = self.surfaces[i].state;
        state.resize_finished(ok);
        proof {
            lemma_update_keeps_keys(self.surfaces@, i as int, Surface { state, ..self.surfaces@[i as int] });
        }
        let surface = self.surfaces[i].with_state(state);
        self.surfaces.set(i, surface);
    }

    /// The settings that the configuration in force gives the surface of
    /// `output`, looked up by its output's name.
    pub fn current_settings(&self, output: u64) -> (r: WallpaperSettings)
        requires
            self.wf(),
            has_output(self.surfaces@, output),
        ensures
            r@ == resolve(
                self.config(),
                self.surfaces@[index_of_output(self.surfaces@, output)].name@,
            ),
    {
        let i = self.find_by_output(output).unwrap();
        self.wallpaper_config.get_output_by_name(&self.surfaces[i].name)
    }

    /// Whether the surface of `output` may render now.
    pub fn can_render(&self, output: u64) -> (r: bool)
        requires
            self.wf(),
            has_output(self.surfaces@, output),
        ensures
            r == may_render(self.surfaces@[index_of_output(self.surfaces@, output)].state),
    {
        let i = self.find_by_output(output).unwrap();
        self.surfaces[i].state.can_render()
    }
}

} // verus!

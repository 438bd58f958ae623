//! The scene, its camera, and the path tracer that renders one through the
//! other.

use vstd::prelude::*;
use vstd::arithmetic::div_mod::lemma_fundamental_div_mod_converse;
use crate::color::Col3;
use crate::pixel::black_samples_give_black;
use crate::pixel::pixel_of;
use crate::pixel::resolve_pixel;
use crate::pixel::Sample;
use crate::ray::Ray;
use crate::scalar::Scalar;
use crate::ray::AMBIENT_BITS;
use crate::shape::bounce_is_counted;
use crate::shape::reflect;
use crate::shape::reflected;
use crate::shape::RayTraceShape;
use crate::vector::V3;

verus! {

#[derive(Clone, Copy, Debug)]
pub struct Camera {
    pub location: V3,
    /// Radians.
    pub rotation_y: Scalar,
    /// Radians.
    pub rotation_x: Scalar,
    /// The viewport's reference corner, relative to the camera.
    pub viewport_anchor: V3,
    pub size_x: u16,
    pub size_y: u16,
    pub rays_per_pixel: u16,
    pub bounce_depth: u16,
    pub max_steps: u16,
    pub step_len: Scalar,
}

pub struct Scene<S> {
    pub geometry: Vec<S>,
    pub camera: Camera,
}

/// Whether an answer of `intersect` counts as a hit: a distance greater
/// than zero.
pub open spec fn is_hit(answer: Option<Scalar>) -> bool {
    answer matches Some(d) && d.positive()
}

/// Whether none of `answers` is a hit.
pub open spec fn all_miss(answers: Seq<Option<Scalar>>) -> bool {
    forall|j: int| 0 <= j < answers.len() ==> !is_hit(#[trigger] answers[j])
}

/// Whether `answers[i]` is the nearest hit among the first `n` answers: a
/// hit no farther than any other of them and nearer than every one before it.
pub open spec fn nearest_among(answers: Seq<Option<Scalar>>, n: int, i: int) -> bool {
    &&& 0 <= i < n <= answers.len()
    &&& is_hit(answers[i])
    &&& forall|j: int|
        0 <= j < n && is_hit(#[trigger] answers[j]) ==> {
            &&& answers[i].unwrap().rank() <= answers[j].unwrap().rank()
            &&& j < i ==> answers[i].unwrap().rank() < answers[j].unwrap().rank()
        }
}

/// Whether `answers[i]` is the nearest hit of all; of equally near hits the
/// first is the nearest.
pub open spec fn nearest_at(answers: Seq<Option<Scalar>>, i: int) -> bool {
    nearest_among(answers, answers.len() as int, i)
}

/// At most one answer is the nearest hit.
pub proof fn nearest_is_unique(answers: Seq<Option<Scalar>>, i: int, k: int)
    requires
        nearest_at(answers, i),
        nearest_at(answers, k),
    ensures
        i == k,
{
    if i < k {
        assert(is_hit(answers[i]));
    } else if k < i {
        assert(is_hit(answers[k]));
    }
}

/// Where a nearest hit exists, not all answers miss, and the other way round.
pub proof fn nearest_exists_unless_all_miss(answers: Seq<Option<Scalar>>)
    ensures
        all_miss(answers) <==> !exists|i: int| nearest_at(answers, i),
    decreases answers.len(),
{
    if all_miss(answers) {
        assert forall|i: int| !nearest_at(answers, i) by {
            if 0 <= i < answers.len() {
                assert(!is_hit(answers[i]));
            }
        }
    } else {
        let j = choose|j: int| 0 <= j < answers.len() && is_hit(#[trigger] answers[j]);
        let front = answers.drop_last();
        let last = answers.len() - 1;
        nearest_exists_unless_all_miss(front);
        if all_miss(front) {
            assert(j == last) by {
                if j < last {
                    assert(is_hit(front[j]));
                }
            }
            assert(nearest_at(answers, last)) by {
                assert forall|m: int| 0 <= m < last implies !is_hit(#[trigger] answers[m]) by {
                    assert(!is_hit(front[m]));
                }
            }
        } else {
            let b = choose|b: int| nearest_at(front, b);
            assert(is_hit(answers[b])) by {
                assert(front[b] == answers[b]);
            }
            assert forall|m: int| 0 <= m < last && is_hit(#[trigger] answers[m]) implies {
                &&& answers[b].unwrap().rank() <= answers[m].unwrap().rank()
                &&& m < b ==> answers[b].unwrap().rank() < answers[m].unwrap().rank()
            } by {
                assert(front[m] == answers[m]);
                assert(front[b] == answers[b]);
            }
            if is_hit(answers[last]) && answers[last].unwrap().rank() < answers[b].unwrap().rank() {
                assert(nearest_at(answers, last));
            } else {
                assert(nearest_at(answers, b));
            }
        }
    }
}

/// The order of the answers decides nothing but which of equally near hits
/// is taken: however they are ordered, the nearest hit is as far.
pub proof fn nearest_distance_ignores_order(
    a: Seq<Option<Scalar>>,
    b: Seq<Option<Scalar>>,
    i: int,
    k: int,
)
    requires
        a.to_multiset() == b.to_multiset(),
        nearest_at(a, i),
        nearest_at(b, k),
    ensures
        a[i] == b[k],
{
    a.to_multiset_ensures();
    b.to_multiset_ensures();
    assert(a.contains(a[i]));
    assert(b.contains(b[k]));
    assert(b.to_multiset().count(a[i]) > 0);
    assert(a.to_multiset().count(b[k]) > 0);
    assert(b.contains(a[i]));
    assert(a.contains(b[k]));
    let m = choose|m: int| 0 <= m < b.len() && b[m] == a[i];
    let n = choose|n: int| 0 <= n < a.len() && a[n] == b[k];
    assert(is_hit(b[m]));
    assert(is_hit(a[n]));
}

/// Picks the nearest hit among the answers of a scene's shapes.
pub fn nearest_hit(answers: &Vec<Option<Scalar>>) -> (out: Option<usize>)
    ensures
        match out {
            Some(i) => nearest_at(answers@, i as int),
            None => all_miss(answers@),
        },
{
    let mut best: Option<usize> = None;
    let mut i: usize = 0;
    while i < answers.len()
        invariant
            0 <= i <= answers.len(),
            match best {
                Some(b) => nearest_among(answers@, i as int, b as int),
                None => forall|j: int| 0 <= j < i ==> !is_hit(#[trigger] answers@[j]),
            },
        decreases answers.len() - i,
    {
        match answers[i] {
            Some(d) => {
                if d.is_positive() {
                    match best {
                        Some(b) => {
                            let held = answers[b].unwrap();
                            if d.lt(held) {
                                best = Some(i);
                            }
                        },
                        None => {
                            best = Some(i);
                        },
                    }
                }
            },
            None => {},
        }
        i = i + 1;
    }
    best
}

impl Camera {
    /// The ray that sets out from `origin` in direction `dir`: white, with
    /// the camera's budgets and the ambient gain.
    pub open spec fn launched(&self, origin: V3, dir: V3) -> Ray {
        Ray {
            origin,
            dir,
            color: Col3::white_spec(),
            bounces_remaining: self.bounce_depth,
            steps_remaining: self.max_steps,
            gamma: Scalar { bits: AMBIENT_BITS },
        }
    }

    /// The rays to trace for the pixel at `(x_idx, y_idx)`, one for each
    /// sample. `aim` gives the origin and the direction of the ray for a
    /// pixel and the number of a sample, jitter and the camera's orientation
    /// applied.
    pub fn generate_rays_for_pixel<F: Fn(u16, u16, u16) -> (V3, V3)>(
        &self,
        x_idx: u16,
        y_idx: u16,
        aim: &F,
    ) -> (rays: Vec<Ray>)
        requires
            forall|i: u16| i < self.rays_per_pixel ==> call_requires(aim, (x_idx, y_idx, i)),
        ensures
            rays.len() == self.rays_per_pixel,
            forall|i: int|
                0 <= i < rays.len() ==> {
                    &&& call_ensures(
                        aim,
                        (x_idx, y_idx, i as u16),
                        ((#[trigger] rays[i]).origin, rays[i].dir),
                    )
                    &&& rays[i] == self.launched(rays[i].origin, rays[i].dir)
                },
    {
        let mut rays: Vec<Ray> = Vec::with_capacity(self.rays_per_pixel as usize);
        let mut i: u16 = 0;
        while i < self.rays_per_pixel
            invariant
                0 <= i <= self.rays_per_pixel,
                rays.len() == i,
                forall|k: u16| k < self.rays_per_pixel ==> call_requires(aim, (x_idx, y_idx, k)),
                forall|k: int|
                    0 <= k < rays.len() ==> {
                        &&& call_ensures(
                            aim,
                            (x_idx, y_idx, k as u16),
                            ((#[trigger] rays[k]).origin, rays[k].dir),
                        )
                        &&& rays[k] == self.launched(rays[k].origin, rays[k].dir)
                    },
            decreases self.rays_per_pixel - i,
        {
            let (origin, dir) = aim(x_idx, y_idx, i);
            rays.push(
                Ray {
                    origin,
                    dir,
                    color: Col3::white(),
                    bounces_remaining: self.bounce_depth,
                    steps_remaining: self.max_steps,
                    gamma: Scalar::from_bits(AMBIENT_BITS),
                },
            );
            i = i + 1;
        }
        rays
    }
}

impl<S: RayTraceShape> Scene<S> {
    /// Whether `answers` may be what the shapes of the scene answer for
    /// `ray`, one each, in the scene's order.
    pub open spec fn answered(&self, ray: Ray, answers: Seq<Option<Scalar>>) -> bool {
        &&& answers.len() == self.geometry@.len()
        &&& forall|j: int|
            0 <= j < answers.len() ==> call_ensures(
                S::intersect,
                (&self.geometry@[j], ray),
                #[trigger] answers[j],
            )
    }

    /// Whether `ray` meets nothing in the scene: no shape has a hit for an
    /// answer.
    pub open spec fn misses(&self, ray: Ray) -> bool {
        forall|j: int, answer: Option<Scalar>|
            0 <= j < self.geometry@.len() && #[trigger] call_ensures(
                S::intersect,
                (&self.geometry@[j], ray),
                answer,
            ) ==> !is_hit(answer)
    }

    /// Asks every shape of the scene where `ray` meets it.
    pub fn intersections(&self, ray: Ray) -> (answers: Vec<Option<Scalar>>)
        ensures
            self.answered(ray, answers@),
    {
        let mut answers: Vec<Option<Scalar>> = Vec::with_capacity(self.geometry.len());
        let mut i: usize = 0;
        while i < self.geometry.len()
            invariant
                0 <= i <= self.geometry.len(),
                answers.len() == i,
                forall|j: int|
                    0 <= j < i ==> call_ensures(
                        S::intersect,
                        (&self.geometry@[j], ray),
                        #[trigger] answers@[j],
                    ),
            decreases self.geometry.len() - i,
        {
            answers.push(self.geometry[i].intersect(ray));
            i = i + 1;
        }
        answers
    }

    /// The ray as it goes into a bounce: its steps set anew.
    pub open spec fn braced(&self, ray: Ray) -> Ray {
        Ray { steps_remaining: self.camera.max_steps, ..ray }
    }

    /// Whether following the ray `start` through the scene may leave it as
    /// `end` and give the colour `out`.
    ///
    /// A ray with no bounce left stays as it is and gives black, whatever
    /// stands in its way. Any other ray is put to the shapes, which answer
    /// where it meets them. If none of the answers is a hit, the ray stays
    /// as it is and gives black. Else it bounces off the shape of the
    /// nearest hit; if that leaves it no bounce, it gives what it carries
    /// now, else it is followed on.
    pub open spec fn traced(&self, start: Ray, end: Ray, out: Col3) -> bool
        decreases start.bounces_remaining,
    {
        if start.bounces_remaining == 0 {
            end == start && out == Col3::black_spec()
        } else {
            exists|answers: Seq<Option<Scalar>>|
                {
                    &&& #[trigger] self.answered(start, answers)
                    &&& if all_miss(answers) {
                        end == start && out == Col3::black_spec()
                    } else {
                        exists|i: int, next: Ray|
                            {
                                &&& nearest_at(answers, i)
                                &&& #[trigger] reflected(
                                    &self.geometry@[i],
                                    self.braced(start),
                                    answers[i].unwrap(),
                                    next,
                                )
                                &&& next.bounces_remaining < start.bounces_remaining
                                &&& if next.bounces_remaining == 0 {
                                    end == next && out == next.terminal()
                                } else {
                                    self.traced(next, end, out)
                                }
                            }
                    }
                }
        }
    }

    /// What holds of every path. A ray that meets nothing, or sets out with
    /// no bounce left, gives black and stays as it was. Any other ray stays
    /// as it was, and then gives black, or loses at least one bounce and has
    /// its steps set anew. The colour is black or what the ray carries once
    /// a bounce has left it no other.
    pub proof fn every_path(&self, start: Ray, end: Ray, out: Col3)
        requires
            self.traced(start, end, out),
        ensures
            self.misses(start) || start.bounces_remaining == 0 ==> end == start && out
                == Col3::black_spec(),
            end == start ==> out == Col3::black_spec(),
            end == start || {
                &&& end.bounces_remaining < start.bounces_remaining
                &&& end.steps_remaining == self.camera.max_steps
            },
            out == Col3::black_spec() || (end.bounces_remaining == 0 && out == end.terminal()),
        decreases start.bounces_remaining,
    {
        if start.bounces_remaining > 0 {
            let answers = choose|answers: Seq<Option<Scalar>>|
                {
                    &&& #[trigger] self.answered(start, answers)
                    &&& if all_miss(answers) {
                        end == start && out == Col3::black_spec()
                    } else {
                        exists|i: int, next: Ray|
                            {
                                &&& nearest_at(answers, i)
                                &&& #[trigger] reflected(
                                    &self.geometry@[i],
                                    self.braced(start),
                                    answers[i].unwrap(),
                                    next,
                                )
                                &&& next.bounces_remaining < start.bounces_remaining
                                &&& if next.bounces_remaining == 0 {
                                    end == next && out == next.terminal()
                                } else {
                                    self.traced(next, end, out)
                                }
                            }
                    }
                };
            if self.misses(start) {
                assert forall|j: int| 0 <= j < answers.len() implies !is_hit(
                    #[trigger] answers[j],
                ) by {
                    assert(call_ensures(S::intersect, (&self.geometry@[j], start), answers[j]));
                }
            }
            if !all_miss(answers) {
                let (i, next) = choose|i: int, next: Ray|
                    {
                        &&& nearest_at(answers, i)
                        &&& #[trigger] reflected(
                            &self.geometry@[i],
                            self.braced(start),
                            answers[i].unwrap(),
                            next,
                        )
                        &&& next.bounces_remaining < start.bounces_remaining
                        &&& if next.bounces_remaining == 0 {
                            end == next && out == next.terminal()
                        } else {
                            self.traced(next, end, out)
                        }
                    };
                bounce_is_counted(
                    &self.geometry@[i],
                    self.braced(start),
                    answers[i].unwrap(),
                    next,
                );
                if next.bounces_remaining != 0 {
                    self.every_path(next, end, out);
                }
            }
        }
    }

    /// Whether `sample` may come of sample `i` of the pixel at `(x, y)`: of
    /// tracing a ray that the camera launched where `aim` pointed it.
    pub open spec fn sampled<F: Fn(u16, u16, u16) -> (V3, V3)>(
        &self,
        aim: &F,
        x: u16,
        y: u16,
        i: u16,
        sample: Sample,
    ) -> bool {
        exists|origin: V3, dir: V3, end: Ray|
            {
                &&& call_ensures(aim, (x, y, i), (origin, dir))
                &&& #[trigger] self.traced(self.camera.launched(origin, dir), end, sample.color)
                &&& sample.gamma == end.gamma
            }
    }

    /// Whether `pixel` may come of the pixel at `(x, y)`: the average of one
    /// sample for each ray asked for.
    pub open spec fn rendered<F: Fn(u16, u16, u16) -> (V3, V3)>(
        &self,
        aim: &F,
        x: u16,
        y: u16,
        pixel: Col3,
    ) -> bool {
        exists|samples: Seq<Sample>|
            {
                &&& samples.len() == self.camera.rays_per_pixel
                &&& forall|i: int|
                    0 <= i < samples.len() ==> self.sampled(aim, x, y, i as u16, #[trigger] samples[i])
                &&& pixel == #[trigger] pixel_of(samples, self.camera.rays_per_pixel)
            }
    }

    /// In a scene that no ray meets, every sample is black.
    pub proof fn unseen_scene_samples_black<F: Fn(u16, u16, u16) -> (V3, V3)>(
        &self,
        aim: &F,
        x: u16,
        y: u16,
        i: u16,
        sample: Sample,
    )
        requires
            forall|ray: Ray| self.misses(ray),
            self.sampled(aim, x, y, i, sample),
        ensures
            sample.color == Col3::black_spec(),
    {
        let (origin, dir, end) = choose|origin: V3, dir: V3, end: Ray|
            {
                &&& call_ensures(aim, (x, y, i), (origin, dir))
                &&& #[trigger] self.traced(self.camera.launched(origin, dir), end, sample.color)
                &&& sample.gamma == end.gamma
            };
        self.every_path(self.camera.launched(origin, dir), end, sample.color);
    }

    /// In a scene that no ray meets, every pixel is black.
    pub proof fn unseen_scene_renders_black<F: Fn(u16, u16, u16) -> (V3, V3)>(
        &self,
        aim: &F,
        x: u16,
        y: u16,
        pixel: Col3,
    )
        requires
            forall|ray: Ray| self.misses(ray),
            self.rendered(aim, x, y, pixel),
        ensures
            pixel == Col3::black_spec(),
    {
        let samples = choose|samples: Seq<Sample>|
            {
                &&& samples.len() == self.camera.rays_per_pixel
                &&& forall|i: int|
                    0 <= i < samples.len() ==> self.sampled(aim, x, y, i as u16, #[trigger] samples[i])
                &&& pixel == #[trigger] pixel_of(samples, self.camera.rays_per_pixel)
            };
        assert forall|i: int| 0 <= i < samples.len() implies (#[trigger] samples[i]).color
            == Col3::black_spec() by {
            self.unseen_scene_samples_black(aim, x, y, i as u16, samples[i]);
        }
        black_samples_give_black(samples, self.camera.rays_per_pixel);
    }

    /// With a bounce depth of zero no ray is shaded: every sample is black
    /// and keeps the gain it set out with.
    pub proof fn no_bounce_no_shading<F: Fn(u16, u16, u16) -> (V3, V3)>(
        &self,
        aim: &F,
        x: u16,
        y: u16,
        i: u16,
        sample: Sample,
    )
        requires
            self.camera.bounce_depth == 0,
            self.sampled(aim, x, y, i, sample),
        ensures
            sample.color == Col3::black_spec(),
            sample.gamma == (Scalar { bits: AMBIENT_BITS }),
    {
        let (origin, dir, end) = choose|origin: V3, dir: V3, end: Ray|
            {
                &&& call_ensures(aim, (x, y, i), (origin, dir))
                &&& #[trigger] self.traced(self.camera.launched(origin, dir), end, sample.color)
                &&& sample.gamma == end.gamma
            };
        self.every_path(self.camera.launched(origin, dir), end, sample.color);
    }

    /// With a bounce depth of zero every pixel is black, as it is in a scene
    /// without shapes.
    pub proof fn no_bounce_renders_black<F: Fn(u16, u16, u16) -> (V3, V3)>(
        &self,
        aim: &F,
        x: u16,
        y: u16,
        pixel: Col3,
    )
        requires
            self.camera.bounce_depth == 0,
            self.rendered(aim, x, y, pixel),
        ensures
            pixel == Col3::black_spec(),
    {
        let samples = choose|samples: Seq<Sample>|
            {
                &&& samples.len() == self.camera.rays_per_pixel
                &&& forall|i: int|
                    0 <= i < samples.len() ==> self.sampled(aim, x, y, i as u16, #[trigger] samples[i])
                &&& pixel == #[trigger] pixel_of(samples, self.camera.rays_per_pixel)
            };
        assert forall|i: int| 0 <= i < samples.len() implies (#[trigger] samples[i]).color
            == Col3::black_spec() by {
            self.no_bounce_no_shading(aim, x, y, i as u16, samples[i]);
        }
        black_samples_give_black(samples, self.camera.rays_per_pixel);
    }

    /// Follows `ray` from bounce to bounce until it meets nothing, which
    /// gives black, or a bounce leaves it no other, which gives what it has
    /// gathered. A ray that sets out with no bounce left is not touched and
    /// gives black.
    pub fn path_trace_ray(&self, ray: &mut Ray) -> (out: Col3)
        ensures
            self.traced(*old(ray), *final(ray), out),
    {
        if ray.bounces_remaining == 0 {
            return Col3::black();
        }
        loop
            invariant
                ray.bounces_remaining > 0,
                forall|end: Ray, out: Col3|
                    self.traced(*ray, end, out) ==> self.traced(*old(ray), end, out),
            decreases ray.bounces_remaining,
        {
            let ghost start = *ray;
            let answers = self.intersections(*ray);
            match nearest_hit(&answers) {
                None => {
                    assert(self.traced(start, start, Col3::black_spec())) by {
                        assert(self.answered(start, answers@));
                    }
                    return Col3::black();
                },
                Some(i) => {
                    assert(is_hit(answers@[i as int]));
                    let distance = answers[i].unwrap();
                    ray.steps_remaining = self.camera.max_steps;
                    reflect(&self.geometry[i], ray, distance);
                    let ghost next = *ray;
                    proof {
                        bounce_is_counted(&self.geometry@[i as int], self.braced(start), distance, next);
                        assert forall|end: Ray, out: Col3|
                            (if next.bounces_remaining == 0 {
                                end == next && out == next.terminal()
                            } else {
                                self.traced(next, end, out)
                            }) implies self.traced(start, end, out) by {
                            assert(self.answered(start, answers@));
                            assert(reflected(
                                &self.geometry@[i as int],
                                self.braced(start),
                                answers@[i as int].unwrap(),
                                next,
                            ));
                        }
                    }
                    if ray.bounces_remaining == 0 {
                        return ray.terminal_color();
                    }
                },
            }
        }
    }

    /// Traces the rays of the pixel at `(x, y)` and gives what each adds to it.
    pub fn trace_pixel<F: Fn(u16, u16, u16) -> (V3, V3)>(&self, x: u16, y: u16, aim: &F) -> (samples:
        Vec<Sample>)
        requires
            forall|i: u16| i < self.camera.rays_per_pixel ==> call_requires(aim, (x, y, i)),
        ensures
            samples.len() == self.camera.rays_per_pixel,
            forall|i: int|
                0 <= i < samples.len() ==> self.sampled(aim, x, y, i as u16, #[trigger] samples[i]),
    {
        let rays = self.camera.generate_rays_for_pixel(x, y, aim);
        let mut samples: Vec<Sample> = Vec::with_capacity(rays.len());
        let mut i: usize = 0;
        while i < rays.len()
            invariant
                0 <= i <= rays.len(),
                rays.len() == self.camera.rays_per_pixel,
                samples.len() == i,
                forall|k: int|
                    0 <= k < rays.len() ==> {
                        &&& call_ensures(
                            aim,
                            (x, y, k as u16),
                            ((#[trigger] rays[k]).origin, rays[k].dir),
                        )
                        &&& rays[k] == self.camera.launched(rays[k].origin, rays[k].dir)
                    },
                forall|k: int|
                    0 <= k < samples.len() ==> self.sampled(
                        aim,
                        x,
                        y,
                        k as u16,
                        #[trigger] samples[k],
                    ),
            decreases rays.len() - i,
        {
            let mut ray = rays[i];
            let ghost start = ray;
            let color = self.path_trace_ray(&mut ray);
            let sample = Sample { color, gamma: ray.gamma };
            assert(self.sampled(aim, x, y, i as u16, sample)) by {
                assert(start == self.camera.launched(start.origin, start.dir));
                assert(self.traced(self.camera.launched(start.origin, start.dir), ray, sample.color));
            }
            samples.push(sample);
            i = i + 1;
        }
        samples
    }

    /// Renders the scene: one colour for each pixel, row after row from
    /// `y = 0`, each row from `x = 0`. `aim` is what `generate_rays_for_pixel`
    /// takes. With a bounce depth of zero the image is black.
    pub fn render<F: Fn(u16, u16, u16) -> (V3, V3)>(&self, aim: &F) -> (image: Vec<Col3>)
        requires
            forall|x: u16, y: u16, i: u16|
                x < self.camera.size_x && y < self.camera.size_y && i < self.camera.rays_per_pixel
                    ==> call_requires(aim, (x, y, i)),
        ensures
            image.len() == self.camera.size_x * self.camera.size_y,
            forall|p: int|
                0 <= p < image.len() ==> self.rendered(
                    aim,
                    (p % (self.camera.size_x as int)) as u16,
                    (p / (self.camera.size_x as int)) as u16,
                    #[trigger] image[p],
                ),
            self.camera.bounce_depth == 0 ==> forall|p: int|
                0 <= p < image.len() ==> #[trigger] image[p] == Col3::black_spec(),
    {
        let mut image: Vec<Col3> = Vec::new();
        let mut y: u16 = 0;
        while y < self.camera.size_y
            invariant
                0 <= y <= self.camera.size_y,
                image.len() == y * self.camera.size_x,
                forall|x: u16, y: u16, i: u16|
                    x < self.camera.size_x && y < self.camera.size_y && i
                        < self.camera.rays_per_pixel ==> call_requires(aim, (x, y, i)),
                forall|p: int|
                    0 <= p < image.len() ==> self.rendered(
                        aim,
                        (p % (self.camera.size_x as int)) as u16,
                        (p / (self.camera.size_x as int)) as u16,
                        #[trigger] image[p],
                    ),
            decreases self.camera.size_y - y,
        {
            let mut x: u16 = 0;
            while x < self.camera.size_x
                invariant
                    0 <= x <= self.camera.size_x,
                    y < self.camera.size_y,
                    image.len() == y * self.camera.size_x + x,
                    forall|x: u16, y: u16, i: u16|
                        x < self.camera.size_x && y < self.camera.size_y && i
                            < self.camera.rays_per_pixel ==> call_requires(aim, (x, y, i)),
                    forall|p: int|
                        0 <= p < image.len() ==> self.rendered(
                            aim,
                            (p % (self.camera.size_x as int)) as u16,
                            (p / (self.camera.size_x as int)) as u16,
                            #[trigger] image[p],
                        ),
                decreases self.camera.size_x - x,
            {
                let samples = self.trace_pixel(x, y, aim);
                let pixel = resolve_pixel(&samples, self.camera.rays_per_pixel);
                proof {
                    let p = y * self.camera.size_x + x;
                    lemma_fundamental_div_mod_converse(
                        p,
                        self.camera.size_x as int,
                        y as int,
                        x as int,
                    );
                    assert(pixel == pixel_of(samples@, self.camera.rays_per_pixel));
                    assert(self.rendered(aim, x, y, pixel));
                    assert(y * self.camera.size_x + x < 0xffff * 0xffff + 0xffff)
                        by (nonlinear_arith)
                        requires
                            y <= 0xffff,
                            x < self.camera.size_x <= 0xffff,
                    ;
                }
                image.push(pixel);
                x = x + 1;
            }
            assert(y * self.camera.size_x + self.camera.size_x == (y + 1) * self.camera.size_x)
                by (nonlinear_arith);
            y = y + 1;
        }
        assert(self.camera.size_y * self.camera.size_x == self.camera.size_x * self.camera.size_y)
            by (nonlinear_arith);
        proof {
            if self.camera.bounce_depth == 0 {
                assert forall|p: int| 0 <= p < image.len() implies #[trigger] image[p]
                    == Col3::black_spec() by {
                    self.no_bounce_renders_black(
                        aim,
                        (p % (self.camera.size_x as int)) as u16,
                        (p / (self.camera.size_x as int)) as u16,
                        image[p],
                    );
                }
            }
        }
        image
    }
}

} // verus!
